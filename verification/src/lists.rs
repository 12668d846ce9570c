//! Facts about sequences of keys in which no key occurs twice. The
//! collections of this library are lists kept in the order of insertion and
//! looked up by a key.

use vstd::prelude::*;

verus! {

/// In a list without duplicates a key is found where it stands.
pub proof fn lemma_index_of_unique<K>(keys: Seq<K>, i: int)
    requires
        keys.no_duplicates(),
        0 <= i < keys.len(),
    ensures
        keys.contains(keys[i]),
        keys.index_of(keys[i]) == i,
{
}

/// Adding a new key at the end keeps the list free of duplicates.
pub proof fn lemma_push_new_key<K>(keys: Seq<K>, key: K)
    requires
        keys.no_duplicates(),
        !keys.contains(key),
    ensures
        keys.push(key).no_duplicates(),
{
    let after = keys.push(key);
    assert forall|i: int, j: int| 0 <= i < after.len() && 0 <= j < after.len() && i != j implies
        after[i] != after[j] by {
        if j == keys.len() {
            assert(keys.contains(keys[i]));
        } else if i == keys.len() {
            assert(keys.contains(keys[j]));
        }
    }
}

/// Taking a key out keeps the list free of duplicates, and the key is gone.
pub proof fn lemma_remove_key<K>(keys: Seq<K>, i: int)
    requires
        keys.no_duplicates(),
        0 <= i < keys.len(),
    ensures
        keys.remove(i).no_duplicates(),
        !keys.remove(i).contains(keys[i]),
        forall|k: K| k != keys[i] ==> (keys.remove(i).contains(k) <==> keys.contains(k)),
{
    let after = keys.remove(i);
    assert forall|k: K| k != keys[i] implies (after.contains(k) <==> keys.contains(k)) by {
        if keys.contains(k) {
            let j = keys.index_of(k);
            let j1 = if j < i { j } else { j - 1 };
            assert(after[j1] == k);
        }
    }
}

/// A list of strings as text values.
pub open spec fn texts(list: Seq<String>) -> Seq<Seq<char>> {
    list.map_values(|s: String| s@)
}

/// The list with `text` in it: unchanged where it holds the text already,
/// else with the text at the end.
pub open spec fn texts_with(list: Seq<Seq<char>>, text: Seq<char>) -> Seq<Seq<char>> {
    if list.contains(text) {
        list
    } else {
        list.push(text)
    }
}

/// The list without `text`.
pub open spec fn texts_without(list: Seq<Seq<char>>, text: Seq<char>) -> Seq<Seq<char>> {
    if list.contains(text) {
        list.remove(list.index_of(text))
    } else {
        list
    }
}

/// The list that results from putting the given texts in one by one.
pub open spec fn texts_collected(list: Seq<Seq<char>>) -> Seq<Seq<char>>
    decreases list.len(),
{
    if list.len() == 0 {
        Seq::empty()
    } else {
        texts_with(texts_collected(list.drop_last()), list.last())
    }
}

/// Copies a list of strings.
pub fn clone_texts(list: &Vec<String>) -> (copy: Vec<String>)
    ensures
        texts(copy@) == texts(list@),
{
    let mut copy: Vec<String> = Vec::new();
    let mut i: usize = 0;
    while i < list.len()
        invariant
            i <= list.len(),
            copy@.len() == i,
            forall|j: int| 0 <= j < i ==> copy@[j]@ == list@[j]@,
        decreases list.len() - i,
    {
        copy.push(list[i].clone());
        i += 1;
    }
    copy
}

/// Where `text` stands in the list, if it does.
pub fn position_of_text(list: &Vec<String>, text: &String) -> (at: Option<usize>)
    ensures
        match at {
            Some(i) => i < list@.len() && texts(list@)[i as int] == text@,
            None => !texts(list@).contains(text@),
        },
{
    let mut i: usize = 0;
    while i < list.len()
        invariant
            i <= list.len(),
            forall|j: int| 0 <= j < i ==> texts(list@)[j] != text@,
        decreases list.len() - i,
    {
        if list[i] == *text {
            return Some(i);
        }
        i += 1;
    }
    None
}

} // verus!
