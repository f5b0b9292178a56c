//! The in-memory key-value mapping: string keys to string-encoded values,
//! with a create-vs-replace distinction on insertion.

use vstd::prelude::*;

verus! {

/// Outcome of a `Store::put`: whether the key was freshly created or an
/// existing binding was replaced.
#[derive(Clone, Copy, Debug, PartialEq, Eq, Structural)]
pub enum PutOutcome {
    Created,
    Replaced,
}

/// Outcome of a `Store::delete`: whether a binding was removed or the key
/// was absent.
#[derive(Clone, Copy, Debug, PartialEq, Eq, Structural)]
pub enum DeleteOutcome {
    Deleted,
    Missing,
}

/// An association list of distinct keys, abstracted as a `Map` from key
/// characters to value characters.
pub struct Store {
    entries: Vec<(String, String)>,
}

/// The mapping denoted by a sequence of key-value pairs; a later pair with
/// the same key shadows an earlier one.
pub open spec fn assoc_map(s: Seq<(String, String)>) -> Map<Seq<char>, Seq<char>>
    decreases s.len(),
{
    if s.len() == 0 {
        Map::empty()
    } else {
        assoc_map(s.drop_last()).insert(s.last().0@, s.last().1@)
    }
}

/// No two pairs of the sequence bind the same key.
pub open spec fn distinct_keys(s: Seq<(String, String)>) -> bool {
    forall|i: int, j: int| 0 <= i < j < s.len() ==> s[i].0@ != s[j].0@
}

impl Store {
    /// The mapping this store currently holds.
    pub closed spec fn view(&self) -> Map<Seq<char>, Seq<char>> {
        assoc_map(self.entries@)
    }

    #[verifier::type_invariant]
    spec fn inv(self) -> bool {
        distinct_keys(self.entries@)
    }

    /// Creates an empty store.
    pub fn new() -> (s: Store)
        ensures
            s@ == Map::<Seq<char>, Seq<char>>::empty(),
    {
        Store { entries: Vec::new() }
    }

    /// Index of the entry binding `key`, if any.
    fn find(&self, key: &String) -> (r: Option<usize>)
        ensures
            match r {
                Some(i) => i < self.entries@.len() && self.entries@[i as int].0@ == key@,
                None => forall|i: int|
                    0 <= i < self.entries@.len() ==> self.entries@[i].0@ != key@,
            },
    {
        let n = self.entries.len();
        let mut i: usize = 0;
        while i < n
            invariant
                n == self.entries@.len(),
                i <= n,
                forall|j: int| 0 <= j < i ==> self.entries@[j].0@ != key@,
            decreases n - i,
        {
            if self.entries[i].0 == *key {
                return Some(i);
            }
            i = i + 1;
        }
        None
    }
}

impl Store {
    /// Looks the key up; returns the bound value, or `None` when the key
    /// is absent.
    pub fn get(&self, key: &String) -> (r: Option<&String>)
        ensures
            match r {
                Some(v) => self@.contains_key(key@) && v@ == self@[key@],
                None => !self@.contains_key(key@),
            },
    {
        proof {
            use_type_invariant(&*self);
        }
        match self.find(key) {
            Some(i) => {
                proof {
                    lemma_assoc_map_index(self.entries@, i as int);
                }
                Some(&self.entries[i].1)
            },
            None => {
                proof {
                    lemma_assoc_map_absent(self.entries@, key@);
                }
                None
            },
        }
    }

    /// Binds `key` to `value`, replacing any existing binding; reports
    /// whether the key was freshly created or already present.
    pub fn put(&mut self, key: String, value: String) -> (r: PutOutcome)
        ensures
            final(self)@ == old(self)@.insert(key@, value@),
            r == PutOutcome::Replaced <==> old(self)@.contains_key(key@),
            r == PutOutcome::Created <==> !old(self)@.contains_key(key@),
    {
        proof {
            use_type_invariant(&*self);
        }
        let ghost s = self.entries@;
        let ghost k = key@;
        let ghost v = value@;
        let found = self.find(&key);
        let mut entries: Vec<(String, String)> = Vec::new();
        core::mem::swap(&mut entries, &mut self.entries);
        let r = match found {
            Some(i) => {
                proof {
                    lemma_assoc_map_index(s, i as int);
                    lemma_distinct_remove(s, i as int);
                    lemma_assoc_map_remove(s, i as int);
                    s.remove_ensures(i as int);
                    assert forall|j: int| 0 <= j < s.remove(i as int).len() implies (s.remove(
                        i as int,
                    )[j].0@ != k) by {
                        if j < i {
                            assert(s.remove(i as int)[j] == s[j]);
                        } else {
                            assert(s.remove(i as int)[j] == s[j + 1]);
                        }
                    }
                }
                entries.remove(i);
                entries.push((key, value));
                proof {
                    let t = s.remove(i as int);
                    assert(entries@.drop_last() =~= t);
                    assert(assoc_map(entries@) == assoc_map(t).insert(k, v));
                    assert(assoc_map(s).remove(k).insert(k, v) =~= assoc_map(s).insert(k, v));
                }
                PutOutcome::Replaced
            },
            None => {
                proof {
                    lemma_assoc_map_absent(s, k);
                }
                entries.push((key, value));
                proof {
                    assert(entries@.drop_last() =~= s);
                }
                PutOutcome::Created
            },
        };
        self.entries = entries;
        r
    }

    /// Removes the binding of `key`, if there is one; reports whether a
    /// binding was removed.
    pub fn delete(&mut self, key: &String) -> (r: DeleteOutcome)
        ensures
            final(self)@ == old(self)@.remove(key@),
            r == DeleteOutcome::Deleted <==> old(self)@.contains_key(key@),
            r == DeleteOutcome::Missing <==> !old(self)@.contains_key(key@),
    {
        proof {
            use_type_invariant(&*self);
        }
        let ghost s = self.entries@;
        let found = self.find(key);
        match found {
            Some(i) => {
                let mut entries: Vec<(String, String)> = Vec::new();
                core::mem::swap(&mut entries, &mut self.entries);
                proof {
                    lemma_assoc_map_index(s, i as int);
                    lemma_distinct_remove(s, i as int);
                    lemma_assoc_map_remove(s, i as int);
                }
                entries.remove(i);
                self.entries = entries;
                DeleteOutcome::Deleted
            },
            None => {
                proof {
                    lemma_assoc_map_absent(s, key@);
                    assert(assoc_map(s).remove(key@) =~= assoc_map(s));
                }
                DeleteOutcome::Missing
            },
        }
    }
}

/// Distinctness of keys survives removing a pair.
proof fn lemma_distinct_remove(s: Seq<(String, String)>, i: int)
    requires
        distinct_keys(s),
        0 <= i < s.len(),
    ensures
        distinct_keys(s.remove(i)),
{
    s.remove_ensures(i);
    assert forall|j1: int, j2: int| 0 <= j1 < j2 < s.remove(i).len() implies (s.remove(
        i,
    )[j1].0@ != s.remove(i)[j2].0@) by {
        if j1 < i {
            assert(s.remove(i)[j1] == s[j1]);
        } else {
            assert(s.remove(i)[j1] == s[j1 + 1]);
        }
        if j2 < i {
            assert(s.remove(i)[j2] == s[j2]);
        } else {
            assert(s.remove(i)[j2] == s[j2 + 1]);
        }
    }
}

/// Removing the pair at `i` removes exactly its key from the denoted map.
proof fn lemma_assoc_map_remove(s: Seq<(String, String)>, i: int)
    requires
        distinct_keys(s),
        0 <= i < s.len(),
    ensures
        assoc_map(s.remove(i)) =~= assoc_map(s).remove(s[i].0@),
    decreases s.len(),
{
    s.remove_ensures(i);
    let k = s[i].0@;
    if i == s.len() - 1 {
        assert(s.remove(i) =~= s.drop_last());
        assert forall|j: int| 0 <= j < s.drop_last().len() implies (s.drop_last()[j].0@
            != k) by {
            assert(s.drop_last()[j] == s[j]);
        }
        lemma_assoc_map_absent(s.drop_last(), k);
    } else {
        let t = s.drop_last();
        assert(distinct_keys(t)) by {
            assert forall|j1: int, j2: int| 0 <= j1 < j2 < t.len() implies (t[j1].0@
                != t[j2].0@) by {
                assert(t[j1] == s[j1]);
                assert(t[j2] == s[j2]);
            }
        }
        lemma_assoc_map_remove(t, i);
        assert(s.remove(i).drop_last() =~= t.remove(i));
        assert(s.remove(i).last() == s.last());
        assert(assoc_map(s.remove(i)) == assoc_map(t.remove(i)).insert(s.last().0@, s.last().1@));
        assert(s.last().0@ != k);
        assert(assoc_map(t).remove(k).insert(s.last().0@, s.last().1@) =~= assoc_map(t).insert(
            s.last().0@,
            s.last().1@,
        ).remove(k));
    }
}

/// Every key bound by some pair of `s` is in the domain of `assoc_map(s)`,
/// and where the keys are distinct it is bound to that pair's value.
proof fn lemma_assoc_map_index(s: Seq<(String, String)>, i: int)
    requires
        distinct_keys(s),
        0 <= i < s.len(),
    ensures
        assoc_map(s).contains_key(s[i].0@),
        assoc_map(s)[s[i].0@] == s[i].1@,
    decreases s.len(),
{
    if i < s.len() - 1 {
        lemma_assoc_map_index(s.drop_last(), i);
        assert(s.last().0@ != s[i].0@);
    }
}

/// A key bound by no pair of `s` is outside the domain of `assoc_map(s)`.
proof fn lemma_assoc_map_absent(s: Seq<(String, String)>, k: Seq<char>)
    requires
        forall|i: int| 0 <= i < s.len() ==> s[i].0@ != k,
    ensures
        !assoc_map(s).contains_key(k),
    decreases s.len(),
{
    if s.len() > 0 {
        lemma_assoc_map_absent(s.drop_last(), k);
    }
}

} // verus!
