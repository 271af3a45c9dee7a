//! Lists of keyed entries read as mappings from a key to a list of names.

use vstd::prelude::*;
use crate::text::{names_of, same_text};

verus! {

/// The list entered under `key`, if there is one. Where a key is entered more
/// than once the latest entry counts, as when a mapping is filled in order.
pub open spec fn entry_for(entries: Seq<(String, Vec<String>)>, key: Seq<char>) -> Option<
    Seq<Seq<char>>,
>
    decreases entries.len(),
{
    if entries.len() == 0 {
        None
    } else if entries.last().0@ == key {
        Some(names_of(entries.last().1@))
    } else {
        entry_for(entries.drop_last(), key)
    }
}

/// The list entered under `key`; the empty list where the key is absent.
pub open spec fn list_for(entries: Seq<(String, Vec<String>)>, key: Seq<char>) -> Seq<Seq<char>> {
    match entry_for(entries, key) {
        Some(list) => list,
        None => Seq::empty(),
    }
}

/// Whether some entry is keyed by `key`.
pub open spec fn has_key(entries: Seq<(String, Vec<String>)>, key: Seq<char>) -> bool {
    exists|j: int| 0 <= j < entries.len() && (#[trigger] entries[j]).0@ == key
}

/// A key that no entry carries has no list.
pub proof fn lemma_absent_key(entries: Seq<(String, Vec<String>)>, key: Seq<char>)
    requires
        !has_key(entries, key),
    ensures
        entry_for(entries, key) is None,
        list_for(entries, key) == Seq::<Seq<char>>::empty(),
    decreases entries.len(),
{
    if entries.len() > 0 {
        let rest = entries.drop_last();
        assert(entries[entries.len() - 1].0@ != key);
        assert forall|j: int| 0 <= j < rest.len() implies (#[trigger] rest[j]).0@ != key by {
            assert(entries[j].0@ != key);
        }
        lemma_absent_key(rest, key);
    }
}

/// The latest entry under a key is the one that counts.
pub proof fn lemma_latest_entry(entries: Seq<(String, Vec<String>)>, key: Seq<char>, i: int)
    requires
        0 <= i < entries.len(),
        entries[i].0@ == key,
        forall|j: int| i < j < entries.len() ==> (#[trigger] entries[j]).0@ != key,
    ensures
        entry_for(entries, key) == Some(names_of(entries[i].1@)),
    decreases entries.len(),
{
    if i < entries.len() - 1 {
        let rest = entries.drop_last();
        assert(entries[entries.len() - 1].0@ != key);
        assert forall|j: int| i < j < rest.len() implies (#[trigger] rest[j]).0@ != key by {
            assert(entries[j].0@ != key);
        }
        lemma_latest_entry(rest, key, i);
    }
}

/// A list entered under a key is the list of one of the entries with that key.
pub proof fn lemma_entry_has_a_source(entries: Seq<(String, Vec<String>)>, key: Seq<char>) -> (i:
    int)
    requires
        entry_for(entries, key) is Some,
    ensures
        0 <= i < entries.len(),
        entries[i].0@ == key,
        entry_for(entries, key) == Some(names_of(entries[i].1@)),
    decreases entries.len(),
{
    if entries.last().0@ == key {
        entries.len() - 1
    } else {
        lemma_entry_has_a_source(entries.drop_last(), key)
    }
}

/// Two lists with the same keys, position by position, and the same names
/// wherever the key is `key`, enter the same list under `key`.
pub proof fn lemma_same_entry(
    a: Seq<(String, Vec<String>)>,
    b: Seq<(String, Vec<String>)>,
    key: Seq<char>,
)
    requires
        a.len() == b.len(),
        forall|j: int| 0 <= j < a.len() ==> (#[trigger] a[j]).0@ == b[j].0@,
        forall|j: int|
            0 <= j < a.len() && (#[trigger] a[j]).0@ == key ==> names_of(a[j].1@) == names_of(
                b[j].1@,
            ),
    ensures
        entry_for(a, key) == entry_for(b, key),
    decreases a.len(),
{
    if a.len() > 0 {
        let ra = a.drop_last();
        let rb = b.drop_last();
        assert(a[a.len() - 1].0@ == b[a.len() - 1].0@);
        assert forall|j: int| 0 <= j < ra.len() implies (#[trigger] ra[j]).0@ == rb[j].0@ by {
            assert(a[j].0@ == b[j].0@);
        }
        assert forall|j: int| 0 <= j < ra.len() && (#[trigger] ra[j]).0@ == key implies names_of(
            ra[j].1@,
        ) == names_of(rb[j].1@) by {
            assert(a[j].0@ == key);
        }
        lemma_same_entry(ra, rb, key);
    }
}

/// The position of the latest entry under `key`, if there is one.
pub fn find_latest(entries: &Vec<(String, Vec<String>)>, key: &str) -> (found: Option<usize>)
    ensures
        match found {
            Some(i) => {
                &&& i < entries@.len()
                &&& entries@[i as int].0@ == key@
                &&& forall|j: int| i < j < entries@.len() ==> (#[trigger] entries@[j]).0@ != key@
                &&& entry_for(entries@, key@) == Some(names_of(entries@[i as int].1@))
            },
            None => !has_key(entries@, key@) && entry_for(entries@, key@) is None,
        },
{
    let mut i: usize = entries.len();
    while i > 0
        invariant
            i <= entries@.len(),
            forall|j: int| i <= j < entries@.len() ==> (#[trigger] entries@[j]).0@ != key@,
        decreases i,
    {
        i -= 1;
        if same_text(entries[i].0.as_str(), key) {
            proof {
                lemma_latest_entry(entries@, key@, i as int);
            }
            return Some(i);
        }
    }
    proof {
        lemma_absent_key(entries@, key@);
    }
    None
}

} // verus!
