//! The string-to-string notes that travel with a segment.

use vstd::prelude::*;

verus! {

/// The map that a list of entries stands for.
pub open spec fn entries_map(entries: Seq<(String, String)>) -> Map<Seq<char>, Seq<char>>
    decreases entries.len(),
{
    if entries.len() == 0 {
        Map::empty()
    } else {
        entries_map(entries.drop_last()).insert(entries.last().0@, entries.last().1@)
    }
}

/// No key stands in the list twice.
pub open spec fn distinct_keys(entries: Seq<(String, String)>) -> bool {
    forall|i: int, j: int|
        #![trigger entries[i], entries[j]]
        0 <= i < j < entries.len() ==> entries[i].0@ != entries[j].0@
}

/// Notes keyed by text. Each key has at most one entry.
#[derive(Debug)]
pub struct Metadata {
    entries: Vec<(String, String)>,
}

impl View for Metadata {
    type V = Map<Seq<char>, Seq<char>>;

    closed spec fn view(&self) -> Map<Seq<char>, Seq<char>> {
        entries_map(self.entries@)
    }
}

/// What the map of a list with distinct keys holds.
proof fn lemma_entries_map(entries: Seq<(String, String)>)
    requires
        distinct_keys(entries),
    ensures
        forall|i: int|
            #![trigger entries[i]]
            0 <= i < entries.len() ==> entries_map(entries).contains_key(entries[i].0@)
                && entries_map(entries)[entries[i].0@] == entries[i].1@,
        forall|k: Seq<char>| #[trigger]
            entries_map(entries).contains_key(k) ==> exists|i: int|
                #![trigger entries[i]]
                0 <= i < entries.len() && entries[i].0@ == k,
    decreases entries.len(),
{
    if entries.len() > 0 {
        let front = entries.drop_last();
        assert(distinct_keys(front)) by {
            assert forall|i: int, j: int|
                #![trigger front[i], front[j]]
                0 <= i < j < front.len() implies front[i].0@ != front[j].0@ by {
                assert(entries[i].0@ != entries[j].0@);
            }
        }
        lemma_entries_map(front);
        assert forall|i: int|
            #![trigger entries[i]]
            0 <= i < entries.len() implies entries_map(entries).contains_key(entries[i].0@)
            && entries_map(entries)[entries[i].0@] == entries[i].1@ by {
            if i < front.len() {
                assert(front[i] == entries[i]);
                assert(entries[i].0@ != entries[entries.len() - 1].0@);
            }
        }
        assert forall|k: Seq<char>| #[trigger]
            entries_map(entries).contains_key(k) implies exists|i: int|
            #![trigger entries[i]]
            0 <= i < entries.len() && entries[i].0@ == k by {
            if k == entries.last().0@ {
                assert(entries[entries.len() - 1].0@ == k);
            } else {
                assert(entries_map(front).contains_key(k));
                let i = choose|i: int| #![trigger front[i]] 0 <= i < front.len() && front[i].0@ == k;
                assert(front[i] == entries[i]);
            }
        }
    }
}

impl Metadata {
    #[verifier::type_invariant]
    spec fn keys_are_distinct(self) -> bool {
        distinct_keys(self.entries@)
    }

    /// Metadata without entries.
    pub fn new() -> (res: Metadata)
        ensures
            res@ == Map::<Seq<char>, Seq<char>>::empty(),
    {
        Metadata { entries: Vec::new() }
    }

    /// Sets `key` to `value`, replacing what it held.
    pub fn insert(&mut self, key: &str, value: &str)
        ensures
            final(self)@ == old(self)@.insert(key@, value@),
    {
        proof {
            use_type_invariant(&*self);
            lemma_entries_map(self.entries@);
        }
        let wanted: String = key.to_owned();
        let mut entries: Vec<(String, String)> = Vec::new();
        std::mem::swap(&mut entries, &mut self.entries);
        let ghost before = entries@;
        let mut i: usize = 0;
        while i < entries.len()
            invariant_except_break
                forall|j: int| #![trigger before[j]] 0 <= j < i ==> before[j].0@ != key@,
            invariant
                i <= entries.len(),
                entries@ == before,
                wanted@ == key@,
            ensures
                i < entries.len() ==> before[i as int].0@ == key@,
                i >= entries.len() ==> forall|j: int|
                    #![trigger before[j]]
                    0 <= j < before.len() ==> before[j].0@ != key@,
            decreases entries.len() - i,
        {
            if entries[i].0 == wanted {
                break;
            }
            i = i + 1;
        }
        if i < entries.len() {
            entries.set(i, (wanted, value.to_owned()));
        } else {
            entries.push((wanted, value.to_owned()));
        }
        proof {
            let after = entries@;
            assert(distinct_keys(after)) by {
                assert forall|a: int, b: int|
                    #![trigger after[a], after[b]]
                    0 <= a < b < after.len() implies after[a].0@ != after[b].0@ by {
                    if b < before.len() {
                        assert(before[a].0@ != before[b].0@);
                    } else {
                        assert(before[a].0@ != key@);
                    }
                }
            }
            lemma_entries_map(after);
            let expected = entries_map(before).insert(key@, value@);
            assert forall|k: Seq<char>|
                entries_map(after).contains_key(k) == expected.contains_key(k) by {
                if expected.contains_key(k) {
                    if k == key@ {
                        assert(after[i as int].0@ == k);
                    } else {
                        let j = choose|j: int|
                            #![trigger before[j]]
                            0 <= j < before.len() && before[j].0@ == k;
                        assert(after[j] == before[j]);
                    }
                }
                if entries_map(after).contains_key(k) {
                    let j = choose|j: int|
                        #![trigger after[j]]
                        0 <= j < after.len() && after[j].0@ == k;
                    if j != i {
                        assert(after[j] == before[j]);
                    }
                }
            }
            assert forall|k: Seq<char>| #[trigger]
                expected.contains_key(k) implies entries_map(after)[k] == expected[k] by {
                if k == key@ {
                    assert(after[i as int].0@ == k);
                } else {
                    let j = choose|j: int|
                        #![trigger before[j]]
                        0 <= j < before.len() && before[j].0@ == k;
                    assert(after[j] == before[j]);
                }
            }
            assert(entries_map(after) =~= expected);
        }
        self.entries = entries;
    }

    /// What `key` is set to, if anything.
    pub fn get(&self, key: &str) -> (res: Option<&String>)
        ensures
            match res {
                Some(value) => self@.contains_key(key@) && self@[key@] == value@,
                None => !self@.contains_key(key@),
            },
    {
        proof {
            use_type_invariant(self);
            lemma_entries_map(self.entries@);
        }
        let wanted: String = key.to_owned();
        let mut i: usize = 0;
        while i < self.entries.len()
            invariant
                i <= self.entries.len(),
                wanted@ == key@,
                self@ == entries_map(self.entries@),
                distinct_keys(self.entries@),
                forall|j: int|
                    #![trigger self.entries@[j]]
                    0 <= j < i ==> self.entries@[j].0@ != key@,
            decreases self.entries.len() - i,
        {
            if self.entries[i].0 == wanted {
                proof {
                    lemma_entries_map(self.entries@);
                }
                return Some(&self.entries[i].1);
            }
            i = i + 1;
        }
        None
    }

    /// The entries, each key once.
    pub fn entries(&self) -> (res: &Vec<(String, String)>)
        ensures
            distinct_keys(res@),
            entries_map(res@) == self@,
            forall|i: int, j: int|
                #![trigger res@[i], res@[j]]
                0 <= i < j < res@.len() ==> res@[i].0@ != res@[j].0@,
            forall|i: int|
                #![trigger res@[i]]
                0 <= i < res@.len() ==> self@.contains_key(res@[i].0@) && self@[res@[i].0@]
                    == res@[i].1@,
            forall|k: Seq<char>| #[trigger]
                self@.contains_key(k) ==> exists|i: int|
                    #![trigger res@[i]]
                    0 <= i < res@.len() && res@[i].0@ == k,
    {
        proof {
            use_type_invariant(self);
            lemma_entries_map(self.entries@);
        }
        &self.entries
    }
}

} // verus!
