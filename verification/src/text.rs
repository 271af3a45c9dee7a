//! Text helpers shared by the rules: prefixes, equality and path segments.

use vstd::prelude::*;

verus! {

/// The character sequences of a list of strings, in order.
pub open spec fn names_of(list: Seq<String>) -> Seq<Seq<char>> {
    list.map_values(|s: String| s@)
}

/// Whether `text` begins with `prefix`.
///
/// Trusted: calls `str::starts_with` of the standard library with a string
/// pattern, which is documented to return `true` exactly when the pattern
/// matches a prefix of the slice. Both sides are valid UTF-8, so a prefix in
/// bytes is a prefix in characters and the other way round.
#[verifier::external_body]
pub(crate) fn starts_with(text: &str, prefix: &str) -> (r: bool)
    ensures
        r == prefix@.is_prefix_of(text@),
{
    text.starts_with(prefix)
}

/// Whether two strings hold the same characters.
pub fn same_text(a: &str, b: &str) -> (r: bool)
    ensures
        r == (a@ == b@),
{
    let left: String = a.to_owned();
    let right: String = b.to_owned();
    left == right
}

/// Whether `segment` is one of the entries of `list`.
pub fn contains_text(list: &Vec<String>, segment: &str) -> (r: bool)
    ensures
        r == names_of(list@).contains(segment@),
{
    let mut i: usize = 0;
    while i < list.len()
        invariant
            i <= list.len(),
            forall|j: int| 0 <= j < i ==> names_of(list@)[j] != segment@,
        decreases list.len() - i,
    {
        if same_text(list[i].as_str(), segment) {
            assert(names_of(list@)[i as int] == segment@);
            return true;
        }
        i += 1;
    }
    false
}

/// Among sequences without repeats, counting the entries that satisfy a
/// predicate gives the size of the filtered set of entries.
pub proof fn lemma_count_is_set_size(s: Seq<Seq<char>>, p: spec_fn(Seq<char>) -> bool)
    requires
        s.no_duplicates(),
    ensures
        s.to_set().finite(),
        s.filter(p).len() == s.to_set().filter(p).len(),
    decreases s.len(),
{
    broadcast use vstd::set::group_set_axioms;
    vstd::seq_lib::seq_to_set_is_finite(s);
    if s.len() == 0 {
        reveal(Seq::filter);
        assert(s.to_set().filter(p) =~= Set::<Seq<char>>::empty());
    } else {
        let t = s.drop_last();
        let x = s.last();
        assert(s =~= t.push(x));
        assert(t.no_duplicates());
        lemma_count_is_set_size(t, p);
        t.lemma_push_to_set_commute(x);
        t.lemma_filter_len_push(p, x);
        assert(!t.to_set().contains(x)) by {
            if t.contains(x) {
                let k = choose|k: int| 0 <= k < t.len() && t[k] == x;
                assert(s[k] == s[s.len() - 1]);
            }
        }
        t.to_set().lemma_len_filter(p);
        if p(x) {
            assert(s.to_set().filter(p) =~= t.to_set().filter(p).insert(x));
        } else {
            assert(s.to_set().filter(p) =~= t.to_set().filter(p));
        }
    }
}

} // verus!
