//! Contacts and relay addresses as the user keeps them. Reading and writing
//! the file is the caller's work: every change hands back the snapshot that
//! is to be written.

use vstd::prelude::*;
use crate::keys::PublicKey;
use crate::lists::{
    clone_texts, lemma_index_of_unique, lemma_push_new_key, lemma_remove_key, position_of_text,
    texts, texts_collected, texts_with, texts_without,
};

verus! {

/// A contact as mathematical values.
pub struct ContactView {
    pub alias: Seq<char>,
    pub pk: Seq<u8>,
}

/// A person the user talks to: a name of the user's choice and a public key.
#[derive(Debug)]
pub struct Contact {
    pub alias: String,
    pub pk: PublicKey,
}

impl View for Contact {
    type V = ContactView;

    open spec fn view(&self) -> ContactView {
        ContactView { alias: self.alias@, pk: self.pk@ }
    }
}

impl Clone for Contact {
    fn clone(&self) -> (copy: Self)
        ensures
            copy@ == self@,
    {
        Contact { alias: self.alias.clone(), pk: self.pk }
    }
}

impl Contact {
    pub fn new(alias: &str, pk: PublicKey) -> (contact: Contact)
        ensures
            contact@ == (ContactView { alias: alias@, pk: pk@ }),
    {
        Contact { alias: alias.to_owned(), pk }
    }
}

/// The views of a list of contacts.
pub open spec fn contacts_view(list: Seq<Contact>) -> Seq<ContactView> {
    list.map_values(|c: Contact| c@)
}

/// The keys of a list of contacts, in the list's order.
pub open spec fn contact_keys(list: Seq<ContactView>) -> Seq<Seq<u8>> {
    list.map_values(|c: ContactView| c.pk)
}

/// The list with `contact` in it: in place of the contact of the same key
/// where there is one, else at the end.
pub open spec fn contacts_with(list: Seq<ContactView>, contact: ContactView) -> Seq<ContactView> {
    let keys = contact_keys(list);
    if keys.contains(contact.pk) {
        list.update(keys.index_of(contact.pk), contact)
    } else {
        list.push(contact)
    }
}

/// The list without the contact of key `pk`.
pub open spec fn contacts_without(list: Seq<ContactView>, pk: Seq<u8>) -> Seq<ContactView> {
    let keys = contact_keys(list);
    if keys.contains(pk) {
        list.remove(keys.index_of(pk))
    } else {
        list
    }
}

/// The list that results from putting the given contacts in one by one.
pub open spec fn contacts_collected(list: Seq<ContactView>) -> Seq<ContactView>
    decreases list.len(),
{
    if list.len() == 0 {
        Seq::empty()
    } else {
        contacts_with(contacts_collected(list.drop_last()), list.last())
    }
}

/// Putting a contact in keeps the keys distinct, and the contact's key is
/// then in the list.
pub proof fn lemma_contacts_with(list: Seq<ContactView>, contact: ContactView)
    requires
        contact_keys(list).no_duplicates(),
    ensures
        contact_keys(contacts_with(list, contact)).no_duplicates(),
        contact_keys(contacts_with(list, contact)).contains(contact.pk),
        forall|pk: Seq<u8>|
            contact_keys(list).contains(pk) ==> contact_keys(contacts_with(list, contact)).contains(
                pk,
            ),
{
    let keys = contact_keys(list);
    let after = contacts_with(list, contact);
    if keys.contains(contact.pk) {
        assert(contact_keys(after) =~= keys);
    } else {
        assert(contact_keys(after) =~= keys.push(contact.pk));
        lemma_push_new_key(keys, contact.pk);
        assert(contact_keys(after)[keys.len() as int] == contact.pk);
        assert forall|pk: Seq<u8>| keys.contains(pk) implies contact_keys(after).contains(pk) by {
            let j = keys.index_of(pk);
            assert(contact_keys(after)[j] == pk);
        }
    }
}

/// Taking a contact out keeps the keys distinct, and the key is then gone.
pub proof fn lemma_contacts_without(list: Seq<ContactView>, pk: Seq<u8>)
    requires
        contact_keys(list).no_duplicates(),
    ensures
        contact_keys(contacts_without(list, pk)).no_duplicates(),
        !contact_keys(contacts_without(list, pk)).contains(pk),
        forall|other: Seq<u8>|
            other != pk ==> (contact_keys(contacts_without(list, pk)).contains(other)
                <==> contact_keys(list).contains(other)),
{
    let keys = contact_keys(list);
    if keys.contains(pk) {
        let i = keys.index_of(pk);
        assert(contact_keys(list.remove(i)) =~= keys.remove(i));
        lemma_remove_key(keys, i);
    }
}

/// Copies a list of contacts.
pub fn clone_contacts(list: &Vec<Contact>) -> (copy: Vec<Contact>)
    ensures
        contacts_view(copy@) == contacts_view(list@),
{
    let mut copy: Vec<Contact> = Vec::new();
    let mut i: usize = 0;
    while i < list.len()
        invariant
            i <= list.len(),
            copy@.len() == i,
            forall|j: int| 0 <= j < i ==> copy@[j]@ == list@[j]@,
        decreases list.len() - i,
    {
        copy.push(list[i].clone());
        i += 1;
    }
    copy
}

/// Where the contact of key `pk` stands in the list, if there is one.
pub fn position_of_contact(list: &Vec<Contact>, pk: &PublicKey) -> (at: Option<usize>)
    ensures
        match at {
            Some(i) => i < list@.len() && contact_keys(contacts_view(list@))[i as int] == pk@,
            None => !contact_keys(contacts_view(list@)).contains(pk@),
        },
{
    let mut i: usize = 0;
    while i < list.len()
        invariant
            i <= list.len(),
            forall|j: int| 0 <= j < i ==> contact_keys(contacts_view(list@))[j] != pk@,
        decreases list.len() - i,
    {
        if list[i].pk == *pk {
            return Some(i);
        }
        i += 1;
    }
    None
}

/// What is persisted, as mathematical values.
pub struct ConfigView {
    pub relays_url: Seq<Seq<char>>,
    pub contacts: Seq<ContactView>,
}

/// The persisted form of the configuration.
#[derive(Debug)]
pub struct Config {
    pub relays_url: Vec<String>,
    pub contacts: Vec<Contact>,
}

impl View for Config {
    type V = ConfigView;

    open spec fn view(&self) -> ConfigView {
        ConfigView { relays_url: texts(self.relays_url@), contacts: contacts_view(self.contacts@) }
    }
}

impl Config {
    pub fn new(contacts: Vec<Contact>, relays_url: Vec<String>) -> (config: Config)
        ensures
            config@ == (ConfigView {
                relays_url: texts(relays_url@),
                contacts: contacts_view(contacts@),
            }),
    {
        Config { contacts, relays_url }
    }
}

/// The configuration in memory: contacts, each key once, and relay
/// addresses, each once, both in the order in which they came.
pub struct ConfigProvider {
    contacts: Vec<Contact>,
    relays_url: Vec<String>,
}

impl View for ConfigProvider {
    type V = ConfigView;

    closed spec fn view(&self) -> ConfigView {
        ConfigView { relays_url: texts(self.relays_url@), contacts: contacts_view(self.contacts@) }
    }
}

impl ConfigView {
    /// No contact key and no relay address occurs twice.
    pub open spec fn wf(self) -> bool {
        contact_keys(self.contacts).no_duplicates() && self.relays_url.no_duplicates()
    }

    /// The configuration holds a contact of key `pk`.
    pub open spec fn has_contact(self, pk: Seq<u8>) -> bool {
        contact_keys(self.contacts).contains(pk)
    }
}

impl ConfigProvider {
    /// No contact key and no relay address occurs twice.
    pub open spec fn wf(&self) -> bool {
        self@.wf()
    }

    /// An empty configuration.
    pub fn new() -> (config: ConfigProvider)
        ensures
            config.wf(),
            config@.contacts == Seq::<ContactView>::empty(),
            config@.relays_url == Seq::<Seq<char>>::empty(),
    {
        ConfigProvider { contacts: Vec::new(), relays_url: Vec::new() }
    }

    fn put_contact(&mut self, new_contact: Contact)
        requires
            old(self).wf(),
        ensures
            final(self).wf(),
            final(self)@.contacts == contacts_with(old(self)@.contacts, new_contact@),
            final(self)@.relays_url == old(self)@.relays_url,
    {
        proof {
            lemma_contacts_with(self@.contacts, new_contact@);
        }
        let ghost before = self@.contacts;
        match position_of_contact(&self.contacts, &new_contact.pk) {
            Some(i) => {
                proof {
                    lemma_index_of_unique(contact_keys(before), i as int);
                }
                self.contacts[i] = new_contact;
                assert(self@.contacts =~= before.update(i as int, new_contact@));
            },
            None => {
                self.contacts.push(new_contact);
                assert(self@.contacts =~= before.push(new_contact@));
            },
        }
    }

    fn put_relay(&mut self, new_relay_url: String)
        requires
            old(self).wf(),
        ensures
            final(self).wf(),
            final(self)@.relays_url == texts_with(old(self)@.relays_url, new_relay_url@),
            final(self)@.contacts == old(self)@.contacts,
    {
        let ghost before = self@.relays_url;
        if position_of_text(&self.relays_url, &new_relay_url).is_none() {
            proof {
                lemma_push_new_key(before, new_relay_url@);
            }
            self.relays_url.push(new_relay_url);
            assert(self@.relays_url =~= before.push(new_relay_url@));
        }
    }

    /// Takes the configuration that was read from disk: contacts and
    /// addresses are put in one by one, so of two contacts with one key the
    /// later stands, in the place of the earlier.
    pub fn load(config: Config) -> (provider: ConfigProvider)
        ensures
            provider.wf(),
            provider@.contacts == contacts_collected(config@.contacts),
            provider@.relays_url == texts_collected(config@.relays_url),
    {
        let mut provider = ConfigProvider::new();
        let mut i: usize = 0;
        while i < config.contacts.len()
            invariant
                i <= config.contacts.len(),
                provider.wf(),
                provider@.contacts == contacts_collected(config@.contacts.take(i as int)),
                provider@.relays_url == Seq::<Seq<char>>::empty(),
            decreases config.contacts.len() - i,
        {
            proof {
                let next = config@.contacts.take(i as int + 1);
                assert(next.drop_last() =~= config@.contacts.take(i as int));
            }
            provider.put_contact(config.contacts[i].clone());
            i += 1;
        }
        assert(config@.contacts.take(i as int) =~= config@.contacts);
        let mut k: usize = 0;
        while k < config.relays_url.len()
            invariant
                k <= config.relays_url.len(),
                provider.wf(),
                provider@.contacts == contacts_collected(config@.contacts),
                provider@.relays_url == texts_collected(config@.relays_url.take(k as int)),
            decreases config.relays_url.len() - k,
        {
            proof {
                let next = config@.relays_url.take(k as int + 1);
                assert(next.drop_last() =~= config@.relays_url.take(k as int));
            }
            provider.put_relay(config.relays_url[k].clone());
            k += 1;
        }
        assert(config@.relays_url.take(k as int) =~= config@.relays_url);
        provider
    }

    /// The snapshot that is to be written to disk.
    pub fn save(&self) -> (snapshot: Config)
        ensures
            snapshot@ == self@,
    {
        Config { relays_url: clone_texts(&self.relays_url), contacts: clone_contacts(&self.contacts) }
    }

    /// Puts a contact in, in place of the one with the same key if there is
    /// one, and hands back what is to be written.
    pub fn add_contact(&mut self, new_contact: Contact) -> (snapshot: Config)
        requires
            old(self).wf(),
        ensures
            final(self).wf(),
            final(self)@.contacts == contacts_with(old(self)@.contacts, new_contact@),
            final(self)@.relays_url == old(self)@.relays_url,
            snapshot@ == final(self)@,
    {
        self.put_contact(new_contact);
        self.save()
    }

    /// Takes out the contact with the key of `contact`, and hands back what
    /// is to be written.
    pub fn remove_contact(&mut self, contact: &Contact) -> (snapshot: Config)
        requires
            old(self).wf(),
        ensures
            final(self).wf(),
            final(self)@.contacts == contacts_without(old(self)@.contacts, contact@.pk),
            final(self)@.relays_url == old(self)@.relays_url,
            snapshot@ == final(self)@,
    {
        self.delete_contact(&contact.pk)
    }

    /// Takes out the contact of key `pk`, and hands back what is to be
    /// written.
    pub fn delete_contact(&mut self, pk: &PublicKey) -> (snapshot: Config)
        requires
            old(self).wf(),
        ensures
            final(self).wf(),
            final(self)@.contacts == contacts_without(old(self)@.contacts, pk@),
            final(self)@.relays_url == old(self)@.relays_url,
            snapshot@ == final(self)@,
    {
        proof {
            lemma_contacts_without(self@.contacts, pk@);
        }
        let ghost before = self@.contacts;
        if let Some(i) = position_of_contact(&self.contacts, pk) {
            proof {
                lemma_index_of_unique(contact_keys(before), i as int);
            }
            self.contacts.remove(i);
            assert(self@.contacts =~= before.remove(i as int));
        }
        self.save()
    }

    /// Puts a relay address in, unless it is there, and hands back what is
    /// to be written.
    pub fn add_relay(&mut self, new_relay_url: String) -> (snapshot: Config)
        requires
            old(self).wf(),
        ensures
            final(self).wf(),
            final(self)@.relays_url == texts_with(old(self)@.relays_url, new_relay_url@),
            final(self)@.contacts == old(self)@.contacts,
            snapshot@ == final(self)@,
    {
        self.put_relay(new_relay_url);
        self.save()
    }

    /// Takes a relay address out, and hands back what is to be written.
    pub fn remove_relay(&mut self, relay_url: &str) -> (snapshot: Config)
        requires
            old(self).wf(),
        ensures
            final(self).wf(),
            final(self)@.relays_url == texts_without(old(self)@.relays_url, relay_url@),
            final(self)@.contacts == old(self)@.contacts,
            snapshot@ == final(self)@,
    {
        let ghost before = self@.relays_url;
        let url: String = relay_url.to_owned();
        if let Some(i) = position_of_text(&self.relays_url, &url) {
            proof {
                lemma_index_of_unique(before, i as int);
                lemma_remove_key(before, i as int);
            }
            self.relays_url.remove(i);
            assert(self@.relays_url =~= before.remove(i as int));
        }
        self.save()
    }

    /// Tells whether the configuration holds a contact of key `pk`.
    pub fn has_contact(&self, pk: &PublicKey) -> (yes: bool)
        ensures
            yes == self@.has_contact(pk@),
    {
        position_of_contact(&self.contacts, pk).is_some()
    }

    /// The contacts, in the order in which they came.
    pub fn list_contacts(&self) -> (contacts: Vec<Contact>)
        ensures
            contacts_view(contacts@) == self@.contacts,
    {
        clone_contacts(&self.contacts)
    }

    /// The relay addresses, in the order in which they came.
    pub fn list_relays_url(&self) -> (urls: Vec<String>)
        ensures
            texts(urls@) == self@.relays_url,
    {
        clone_texts(&self.relays_url)
    }
}

} // verus!
