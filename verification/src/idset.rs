//! A set of node identifiers.

use vstd::prelude::*;
use crate::text::{contains_text, lemma_count_is_set_size, names_of, starts_with};

verus! {

/// A finite set of node identifiers. Each identifier is held once, in the
/// order in which it first arrived.
#[derive(Debug)]
pub struct IdSet {
    ids: Vec<String>,
}

impl View for IdSet {
    type V = Set<Seq<char>>;

    closed spec fn view(&self) -> Set<Seq<char>> {
        names_of(self.ids@).to_set()
    }
}

/// How many identifiers of `ids` begin with `prefix`.
pub open spec fn count_prefixed(ids: Set<Seq<char>>, prefix: Seq<char>) -> nat {
    ids.filter(|id: Seq<char>| prefix.is_prefix_of(id)).len()
}

impl Clone for IdSet {
    fn clone(&self) -> (s: IdSet)
        ensures
            s@ == self@,
    {
        proof {
            use_type_invariant(self);
        }
        let ids = self.ids.clone();
        assert(names_of(ids@) =~= names_of(self.ids@));
        IdSet { ids }
    }
}

impl IdSet {
    #[verifier::type_invariant]
    closed spec fn distinct(&self) -> bool {
        names_of(self.ids@).no_duplicates()
    }

    /// The empty set.
    pub fn new() -> (s: IdSet)
        ensures
            s@ == Set::<Seq<char>>::empty(),
    {
        let s = IdSet { ids: Vec::new() };
        assert(s@ =~= Set::<Seq<char>>::empty());
        s
    }

    /// The set of the identifiers in `list`; one that occurs twice counts once.
    pub fn from_list(list: &Vec<String>) -> (s: IdSet)
        ensures
            s@ == names_of(list@).to_set(),
    {
        let mut ids: Vec<String> = Vec::new();
        let mut i: usize = 0;
        assert(names_of(ids@).to_set() =~= names_of(list@.take(0)).to_set());
        while i < list.len()
            invariant
                i <= list.len(),
                names_of(ids@).no_duplicates(),
                names_of(ids@).to_set() == names_of(list@.take(i as int)).to_set(),
            decreases list.len() - i,
        {
            let ghost before = names_of(ids@);
            let ghost seen = names_of(list@.take(i as int));
            proof {
                assert(names_of(list@.take(i + 1)) =~= seen.push(list@[i as int]@));
                seen.lemma_push_to_set_commute(list@[i as int]@);
            }
            if !contains_text(&ids, list[i].as_str()) {
                ids.push(list[i].clone());
                proof {
                    assert(names_of(ids@) =~= before.push(list@[i as int]@));
                    before.lemma_push_to_set_commute(list@[i as int]@);
                }
            } else {
                assert(before.to_set().insert(list@[i as int]@) =~= before.to_set());
            }
            i += 1;
        }
        assert(list@.take(i as int) =~= list@);
        IdSet { ids }
    }

    /// Adds `id` to the set and says whether it was new.
    pub fn insert(&mut self, id: String) -> (fresh: bool)
        ensures
            final(self)@ == old(self)@.insert(id@),
            fresh == !old(self)@.contains(id@),
    {
        proof {
            use_type_invariant(&*self);
        }
        let ghost before = names_of(self.ids@);
        if contains_text(&self.ids, id.as_str()) {
            assert(before.to_set().insert(id@) =~= before.to_set());
            false
        } else {
            let mut ids: Vec<String> = Vec::new();
            std::mem::swap(&mut ids, &mut self.ids);
            ids.push(id);
            proof {
                assert(names_of(ids@) =~= before.push(id@));
                assert(forall|k: int| 0 <= k < before.len() ==> before[k] != id@);
                assert(names_of(ids@).no_duplicates());
            }
            self.ids = ids;
            proof {
                assert(names_of(self.ids@) =~= before.push(id@));
                before.lemma_push_to_set_commute(id@);
            }
            true
        }
    }

    /// The number of identifiers in the set.
    pub fn len(&self) -> (n: usize)
        ensures
            self@.finite(),
            n == self@.len(),
    {
        proof {
            use_type_invariant(self);
            names_of(self.ids@).unique_seq_to_set();
            vstd::seq_lib::seq_to_set_is_finite(names_of(self.ids@));
        }
        self.ids.len()
    }

    /// Whether `id` is in the set.
    pub fn contains(&self, id: &str) -> (r: bool)
        ensures
            r == self@.contains(id@),
    {
        contains_text(&self.ids, id)
    }

    /// The number of identifiers in the set that begin with `prefix`.
    pub fn count_with_prefix(&self, prefix: &str) -> (n: usize)
        ensures
            n == count_prefixed(self@, prefix@),
    {
        let ghost p = |id: Seq<char>| prefix@.is_prefix_of(id);
        let ghost all = names_of(self.ids@);
        let mut n: usize = 0;
        let mut i: usize = 0;
        proof {
            reveal(Seq::filter);
            assert(all.take(0).filter(p).len() == 0);
        }
        while i < self.ids.len()
            invariant
                i <= self.ids.len(),
                all == names_of(self.ids@),
                p == (|id: Seq<char>| prefix@.is_prefix_of(id)),
                n == all.take(i as int).filter(p).len(),
                n <= i,
            decreases self.ids.len() - i,
        {
            proof {
                assert(all.take(i + 1) =~= all.take(i as int).push(all[i as int]));
                all.take(i as int).lemma_filter_len_push(p, all[i as int]);
            }
            if starts_with(self.ids[i].as_str(), prefix) {
                n += 1;
            }
            i += 1;
        }
        proof {
            use_type_invariant(self);
            assert(all.take(i as int) =~= all);
            lemma_count_is_set_size(all, p);
        }
        n
    }

    /// The identifiers of the set, each once.
    pub fn to_vec(&self) -> (list: Vec<String>)
        ensures
            names_of(list@).no_duplicates(),
            names_of(list@).to_set() == self@,
    {
        proof {
            use_type_invariant(self);
        }
        let list = self.ids.clone();
        assert(names_of(list@) =~= names_of(self.ids@));
        list
    }
}

} // verus!
