//! Keys of the protocol as plain bytes, their text forms, and the user's
//! identity.

use vstd::prelude::*;
use vstd::string::StringExecFns;

verus! {

/// Compares two 32-byte strings byte by byte.
pub fn bytes32_eq(a: &[u8; 32], b: &[u8; 32]) -> (same: bool)
    ensures
        same == (a@ == b@),
{
    let mut i: usize = 0;
    while i < 32
        invariant
            i <= 32,
            forall|j: int| 0 <= j < i ==> a@[j] == b@[j],
        decreases 32 - i,
    {
        if a[i] != b[i] {
            return false;
        }
        i += 1;
    }
    assert(a@ =~= b@);
    true
}

/// The sixteen lower-case hexadecimal digits, by value.
pub open spec fn hex_alphabet() -> Seq<char> {
    seq!['0', '1', '2', '3', '4', '5', '6', '7', '8', '9', 'a', 'b', 'c', 'd', 'e', 'f']
}

/// Lower-case hexadecimal text of a byte string: two digits per byte, the
/// high half first.
pub open spec fn hex_lower(bytes: Seq<u8>) -> Seq<char> {
    Seq::new(
        2 * bytes.len(),
        |i: int|
            if i % 2 == 0 {
                hex_alphabet()[bytes[i / 2] as int / 16]
            } else {
                hex_alphabet()[bytes[i / 2] as int % 16]
            },
    )
}

fn hex_digit(n: u8) -> (d: &'static str)
    requires
        n < 16,
    ensures
        d@ == seq![hex_alphabet()[n as int]],
{
    proof {
        reveal_strlit("0");
        reveal_strlit("1");
        reveal_strlit("2");
        reveal_strlit("3");
        reveal_strlit("4");
        reveal_strlit("5");
        reveal_strlit("6");
        reveal_strlit("7");
        reveal_strlit("8");
        reveal_strlit("9");
        reveal_strlit("a");
        reveal_strlit("b");
        reveal_strlit("c");
        reveal_strlit("d");
        reveal_strlit("e");
        reveal_strlit("f");
    }
    match n {
        0 => "0",
        1 => "1",
        2 => "2",
        3 => "3",
        4 => "4",
        5 => "5",
        6 => "6",
        7 => "7",
        8 => "8",
        9 => "9",
        10 => "a",
        11 => "b",
        12 => "c",
        13 => "d",
        14 => "e",
        _ => "f",
    }
}

/// Writes 32 bytes as 64 lower-case hexadecimal digits.
pub fn hex32(bytes: &[u8; 32]) -> (text: String)
    ensures
        text@ == hex_lower(bytes@),
{
    let mut text = String::new();
    let mut i: usize = 0;
    while i < 32
        invariant
            i <= 32,
            text@ == hex_lower(bytes@.take(i as int)),
        decreases 32 - i,
    {
        let b = bytes[i];
        text.append(hex_digit(b / 16));
        text.append(hex_digit(b % 16));
        i += 1;
    }
    text
}

/// What the protocol library reads a public key's text as: the key's 32
/// bytes, or nothing where it refuses the text.
pub uninterp spec fn parsed_public_key(text: Seq<char>) -> Option<Seq<u8>>;

/// What the protocol library reads a secret key's text as.
pub uninterp spec fn parsed_secret_key(text: Seq<char>) -> Option<Seq<u8>>;

/// The public key that belongs to a secret key, where the 32 bytes are a
/// secret key at all.
pub uninterp spec fn derived_public_key(secret: Seq<u8>) -> Option<Seq<u8>>;

/// A public key: the 32 bytes of the x coordinate.
#[derive(Clone, Copy, Debug)]
pub struct PublicKey {
    pub bytes: [u8; 32],
}

impl View for PublicKey {
    type V = Seq<u8>;

    open spec fn view(&self) -> Seq<u8> {
        self.bytes@
    }
}

impl PartialEq for PublicKey {
    fn eq(&self, other: &Self) -> (same: bool) {
        bytes32_eq(&self.bytes, &other.bytes)
    }
}

impl Eq for PublicKey {

}

impl vstd::std_specs::cmp::PartialEqSpecImpl for PublicKey {
    open spec fn obeys_eq_spec() -> bool {
        true
    }

    open spec fn eq_spec(&self, other: &Self) -> bool {
        self@ == other@
    }
}

/// The bytes held by an optional key.
pub open spec fn key_bytes(key: Option<PublicKey>) -> Option<Seq<u8>> {
    match key {
        Some(k) => Some(k@),
        None => None,
    }
}

/// `nostr::key::PublicKey::parse`: hexadecimal, bech32 or URI text to the
/// key's bytes. The result is named, not described.
#[verifier::external_body]
fn public_key_from_text(text: &str) -> (key: Option<PublicKey>)
    ensures
        key_bytes(key) == parsed_public_key(text@),
{
    nostr::key::PublicKey::parse(text).ok().map(|k| PublicKey { bytes: k.to_bytes() })
}

impl PublicKey {
    pub fn from_bytes(bytes: [u8; 32]) -> (key: PublicKey)
        ensures
            key@ == bytes@,
    {
        PublicKey { bytes }
    }

    pub fn to_bytes(&self) -> (bytes: [u8; 32])
        ensures
            bytes@ == self@,
    {
        self.bytes
    }

    /// Reads a key from the text a user or a tag gives.
    pub fn parse(text: &str) -> (key: Option<PublicKey>)
        ensures
            key_bytes(key) == parsed_public_key(text@),
    {
        public_key_from_text(text)
    }

    /// The key as 64 hexadecimal digits.
    pub fn to_hex(&self) -> (text: String)
        ensures
            text@ == hex_lower(self@),
    {
        hex32(&self.bytes)
    }
}

/// A secret key: 32 bytes.
#[derive(Clone, Copy)]
pub struct SecretKey {
    pub bytes: [u8; 32],
}

impl View for SecretKey {
    type V = Seq<u8>;

    open spec fn view(&self) -> Seq<u8> {
        self.bytes@
    }
}

impl SecretKey {
    pub fn from_bytes(bytes: [u8; 32]) -> (key: SecretKey)
        ensures
            key@ == bytes@,
    {
        SecretKey { bytes }
    }

    /// The key as 64 hexadecimal digits.
    pub fn to_hex(&self) -> (text: String)
        ensures
            text@ == hex_lower(self@),
    {
        hex32(&self.bytes)
    }
}

/// The bytes held by an optional secret key.
pub open spec fn secret_bytes(key: Option<SecretKey>) -> Option<Seq<u8>> {
    match key {
        Some(k) => Some(k@),
        None => None,
    }
}

/// `nostr::key::SecretKey::parse`: hexadecimal or bech32 text to the secret
/// key's bytes. The result is named, not described.
#[verifier::external_body]
fn secret_key_from_text(text: &str) -> (key: Option<SecretKey>)
    ensures
        secret_bytes(key) == parsed_secret_key(text@),
{
    nostr::key::SecretKey::parse(text).ok().map(|k| SecretKey { bytes: k.to_secret_bytes() })
}

/// `nostr::key::Keys::new` on `nostr::key::SecretKey::from_slice`: the public
/// key of a secret key, nothing where the bytes are no secret key.
#[verifier::external_body]
fn public_key_of(secret: &SecretKey) -> (key: Option<PublicKey>)
    ensures
        key_bytes(key) == derived_public_key(secret@),
{
    let secret = nostr::key::SecretKey::from_slice(&secret.bytes).ok()?;
    Some(PublicKey { bytes: nostr::key::Keys::new(secret).public_key().to_bytes() })
}

/// `nostr::key::Keys::generate`: a fresh random pair. Which pair comes is
/// left open; the public key is the one that belongs to the secret key.
#[verifier::external_body]
fn fresh_key_pair() -> (pair: (SecretKey, PublicKey))
    ensures
        derived_public_key(pair.0@) == Some(pair.1@),
{
    let keys = nostr::key::Keys::generate();
    (
        SecretKey { bytes: keys.secret_key().to_secret_bytes() },
        PublicKey { bytes: keys.public_key().to_bytes() },
    )
}

/// The user's identity: a secret key and the public key that belongs to it.
/// It is replaced as a whole, never changed in part.
#[derive(Clone, Copy)]
pub struct User {
    secret_key: SecretKey,
    public_key: PublicKey,
}

/// An identity as two byte strings.
pub struct UserView {
    pub secret_key: Seq<u8>,
    pub public_key: Seq<u8>,
}

impl View for User {
    type V = UserView;

    closed spec fn view(&self) -> UserView {
        UserView { secret_key: self.secret_key@, public_key: self.public_key@ }
    }
}

impl UserView {
    /// The public key is the one derived from the secret key.
    pub open spec fn paired(self) -> bool {
        derived_public_key(self.secret_key) == Some(self.public_key)
    }
}

/// The identity that importing `text` leaves, given the one held before.
pub open spec fn imported_identity(before: UserView, text: Seq<char>) -> UserView {
    match parsed_secret_key(text) {
        Some(secret) => match derived_public_key(secret) {
            Some(public) => UserView { secret_key: secret, public_key: public },
            None => before,
        },
        None => before,
    }
}

impl User {
    /// Both keys are well paired.
    pub open spec fn wf(&self) -> bool {
        self@.paired()
    }

    /// A new identity with a fresh random key pair.
    pub fn new() -> (user: User)
        ensures
            user.wf(),
    {
        let (secret_key, public_key) = fresh_key_pair();
        User { secret_key, public_key }
    }

    /// The identity of a given secret key, where the bytes are one.
    pub fn from_secret_key(secret_key: SecretKey) -> (user: Option<User>)
        ensures
            match derived_public_key(secret_key@) {
                Some(public) => user.is_some() && user.unwrap()@ == (UserView {
                    secret_key: secret_key@,
                    public_key: public,
                }),
                None => user.is_none(),
            },
            user.is_some() ==> user.unwrap().wf(),
    {
        match public_key_of(&secret_key) {
            Some(public_key) => Some(User { secret_key, public_key }),
            None => None,
        }
    }

    /// The identity of the secret key that `sk` reads as.
    pub fn parse(sk: &str) -> (user: Option<User>)
        ensures
            match parsed_secret_key(sk@) {
                Some(secret) => match derived_public_key(secret) {
                    Some(public) => user.is_some() && user.unwrap()@ == (UserView {
                        secret_key: secret,
                        public_key: public,
                    }),
                    None => user.is_none(),
                },
                None => user.is_none(),
            },
            user.is_some() ==> user.unwrap().wf(),
    {
        match secret_key_from_text(sk) {
            Some(secret_key) => User::from_secret_key(secret_key),
            None => None,
        }
    }

    /// Replaces the whole identity by the one that the secret key in `sk`
    /// gives. Text that is no secret key leaves the identity as it was.
    pub fn import_sk(&mut self, sk: &str)
        ensures
            final(self)@ == imported_identity(old(self)@, sk@),
            old(self).wf() ==> final(self).wf(),
    {
        if let Some(user) = User::parse(sk) {
            *self = user;
        }
    }

    pub fn get_pk(&self) -> (key: PublicKey)
        ensures
            key@ == self@.public_key,
    {
        self.public_key
    }

    pub fn get_sk(&self) -> (key: SecretKey)
        ensures
            key@ == self@.secret_key,
    {
        self.secret_key
    }

    /// Both keys, the secret one first.
    pub fn get_keys(&self) -> (keys: (SecretKey, PublicKey))
        ensures
            keys.0@ == self@.secret_key,
            keys.1@ == self@.public_key,
    {
        (self.secret_key, self.public_key)
    }
}

} // verus!
