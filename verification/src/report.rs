//! What a run of the rules found.

use vstd::prelude::*;
use crate::entries::{
    entry_for, find_latest, lemma_entry_has_a_source, lemma_latest_entry, lemma_same_entry, list_for,
};
use crate::text::names_of;

verus! {

/// The findings of a run: for each rule description that had a finding, the
/// names of the nodes that broke the rule, in the order in which they were
/// found. `buckets` holds them in the order in which each description first
/// had a finding.
#[derive(Clone, Debug)]
pub struct Report {
    pub buckets: Vec<(String, Vec<String>)>,
}

impl View for Report {
    type V = Map<Seq<char>, Seq<Seq<char>>>;

    /// The report as a mapping from a description to the names under it.
    open spec fn view(&self) -> Map<Seq<char>, Seq<Seq<char>>> {
        Map::new(
            |d: Seq<char>| entry_for(self.buckets@, d) is Some,
            |d: Seq<char>| list_for(self.buckets@, d),
        )
    }
}

impl Report {
    /// The names reported under `description`; none where it has no bucket.
    pub open spec fn names(&self, description: Seq<char>) -> Seq<Seq<char>> {
        list_for(self.buckets@, description)
    }

    /// The descriptions that have a bucket, in the order of the buckets.
    pub open spec fn keys(&self) -> Seq<Seq<char>> {
        self.buckets@.map_values(|e: (String, Vec<String>)| e.0@)
    }

    /// No description has two buckets and no bucket is empty.
    pub open spec fn wf(&self) -> bool {
        &&& forall|i: int, j: int|
            0 <= i < j < self.buckets@.len() ==> (#[trigger] self.buckets@[i]).0@ != (
            #[trigger] self.buckets@[j]).0@
        &&& forall|i: int|
            0 <= i < self.buckets@.len() ==> (#[trigger] self.buckets@[i]).1@.len() > 0
    }

    /// In a well-formed report each bucket holds exactly the names reported
    /// under its description, and a description with names has a bucket.
    pub proof fn lemma_buckets_are_the_names(&self, i: int)
        requires
            self.wf(),
            0 <= i < self.buckets@.len(),
        ensures
            self.names(self.buckets@[i].0@) == names_of(self.buckets@[i].1@),
            self.names(self.buckets@[i].0@).len() > 0,
    {
        lemma_latest_entry(self.buckets@, self.buckets@[i].0@, i);
    }

    /// In a well-formed report the descriptions with a bucket are those with
    /// at least one name.
    pub proof fn lemma_bucket_iff_names(&self, description: Seq<char>)
        requires
            self.wf(),
        ensures
            self@.contains_key(description) <==> self.names(description).len() > 0,
            self@.contains_key(description) ==> self@[description] == self.names(description),
    {
        if entry_for(self.buckets@, description) is Some {
            let i = lemma_entry_has_a_source(self.buckets@, description);
            assert(names_of(self.buckets@[i].1@).len() == self.buckets@[i].1@.len());
        }
    }

    /// A report without findings.
    pub fn new() -> (report: Report)
        ensures
            report.buckets@.len() == 0,
            report.wf(),
            report@ == Map::<Seq<char>, Seq<Seq<char>>>::empty(),
            forall|d: Seq<char>| (#[trigger] report.names(d)).len() == 0,
    {
        let report = Report { buckets: Vec::new() };
        assert(report@ =~= Map::<Seq<char>, Seq<Seq<char>>>::empty());
        report
    }

    /// Adds `name` to the end of the bucket of `description`, and opens that
    /// bucket first where the description had none.
    pub fn record(&mut self, description: String, name: String)
        ensures
            forall|d: Seq<char>| #[trigger]
                final(self).names(d) == (if d == description@ {
                    old(self).names(d).push(name@)
                } else {
                    old(self).names(d)
                }),
            old(self).wf() ==> final(self).wf(),
            forall|j: int|
                0 <= j < old(self).buckets@.len() && (#[trigger] old(self).buckets@[j]).0@
                    != description@ ==> j < final(self).buckets@.len() && final(self).buckets@[j]
                    == old(self).buckets@[j],
            final(self).keys() == (if old(self).keys().contains(description@) {
                old(self).keys()
            } else {
                old(self).keys().push(description@)
            }),
    {
        let ghost before = self.buckets@;
        let ghost keys_before = self.keys();
        let found = find_latest(&self.buckets, description.as_str());
        match found {
            Some(i) => {
                let (key, mut names) = self.buckets.remove(i);
                names.push(name);
                self.buckets.insert(i, (key, names));
                proof {
                    let after = self.buckets@;
                    assert(after.len() == before.len());
                    assert(names_of(after[i as int].1@) =~= names_of(before[i as int].1@).push(
                        name@,
                    ));
                    assert forall|j: int| 0 <= j < before.len() implies (#[trigger] before[j]).0@
                        == after[j].0@ by {}
                    assert forall|d: Seq<char>| #[trigger]
                        list_for(after, d) == (if d == description@ {
                            list_for(before, d).push(name@)
                        } else {
                            list_for(before, d)
                        }) by {
                        if d == description@ {
                            assert forall|j: int| i < j < after.len() implies (
                            #[trigger] after[j]).0@ != d by {
                                assert(before[j].0@ != d);
                            }
                            lemma_latest_entry(after, d, i as int);
                        } else {
                            lemma_same_entry(before, after, d);
                        }
                    }
                    assert(keys_before[i as int] == description@);
                    assert(self.keys() =~= keys_before);
                    if old(self).wf() {
                        assert forall|a: int, b: int| 0 <= a < b < after.len() implies (
                        #[trigger] after[a]).0@ != (#[trigger] after[b]).0@ by {
                            assert(before[a].0@ != before[b].0@);
                        }
                        assert forall|a: int| 0 <= a < after.len() implies (
                        #[trigger] after[a]).1@.len() > 0 by {
                            assert(before[a].1@.len() > 0 || a == i);
                        }
                    }
                }
            },
            None => {
                let mut names: Vec<String> = Vec::new();
                names.push(name);
                self.buckets.push((description, names));
                proof {
                    let after = self.buckets@;
                    assert(after.drop_last() =~= before);
                    assert(names_of(after.last().1@) =~= Seq::<Seq<char>>::empty().push(name@));
                    assert(self.keys() =~= keys_before.push(description@));
                    if keys_before.contains(description@) {
                        let k = choose|k: int|
                            0 <= k < keys_before.len() && keys_before[k] == description@;
                        assert(before[k].0@ == description@);
                    }
                    if old(self).wf() {
                        assert forall|a: int, b: int| 0 <= a < b < after.len() implies (
                        #[trigger] after[a]).0@ != (#[trigger] after[b]).0@ by {
                            if b < before.len() {
                                assert(before[a].0@ != before[b].0@);
                            } else {
                                assert(before[a].0@ != description@);
                            }
                        }
                    }
                }
            },
        }
    }

    /// The names reported under `description`, in the order in which they
    /// were found; the empty list where nothing was found.
    pub fn names_for(&self, description: &str) -> (list: Vec<String>)
        ensures
            names_of(list@) == self.names(description@),
    {
        match find_latest(&self.buckets, description) {
            Some(i) => {
                let list = self.buckets[i].1.clone();
                assert(names_of(list@) =~= names_of(self.buckets@[i as int].1@));
                list
            },
            None => {
                let list: Vec<String> = Vec::new();
                assert(names_of(list@) =~= Seq::<Seq<char>>::empty());
                list
            },
        }
    }
}

} // verus!
