//! A map from strings to values, kept as a vector of key/value pairs whose
//! keys are distinct; its view is a `Map` keyed by the keys' characters.
use vstd::prelude::*;

verus! {

/// Whether some pair of `s` has the key `k`.
pub open spec fn has_key<V>(s: Seq<(String, V)>, k: Seq<char>) -> bool {
    exists|i: int| 0 <= i < s.len() && #[trigger] s[i].0@ == k
}

/// No two pairs of `s` share a key.
pub open spec fn keys_unique<V>(s: Seq<(String, V)>) -> bool {
    forall|i: int, j: int|
        0 <= i < s.len() && 0 <= j < s.len() && i != j ==> #[trigger] s[i].0@ != #[trigger] s[j].0@
}

/// The map that a sequence of pairs with distinct keys stands for.
pub open spec fn pairs_map<V>(s: Seq<(String, V)>) -> Map<Seq<char>, V> {
    Map::new(
        |k: Seq<char>| has_key(s, k),
        |k: Seq<char>| s[choose|i: int| 0 <= i < s.len() && #[trigger] s[i].0@ == k].1,
    )
}

/// The map that inserting the pairs of `s` one after another, into an empty
/// map, builds (a later pair replaces an earlier one with the same key).
pub open spec fn insert_all<V>(s: Seq<(String, V)>) -> Map<Seq<char>, V>
    decreases s.len(),
{
    if s.len() == 0 {
        Map::empty()
    } else {
        insert_all(s.drop_last()).insert(s.last().0@, s.last().1)
    }
}

/// In a sequence with distinct keys, each pair gives the map's value at its key.
pub proof fn lemma_pairs_map_at<V>(s: Seq<(String, V)>, i: int)
    requires
        keys_unique(s),
        0 <= i < s.len(),
    ensures
        pairs_map(s).contains_key(s[i].0@),
        pairs_map(s)[s[i].0@] == s[i].1,
{
    assert(has_key(s, s[i].0@));
}

/// Rebuilding a map from pairs with distinct keys (as `into_entries` hands
/// them out) by inserting them one after another gives the same map.
pub proof fn lemma_entries_round_trip<V>(s: Seq<(String, V)>)
    requires
        keys_unique(s),
    ensures
        insert_all(s) == pairs_map(s),
    decreases s.len(),
{
    if s.len() == 0 {
        assert(pairs_map(s) =~= Map::<Seq<char>, V>::empty());
    } else {
        let init = s.drop_last();
        let last = s.last();
        assert(keys_unique(init));
        lemma_entries_round_trip(init);
        lemma_pairs_map_at(s, s.len() - 1);
        assert(pairs_map(s) =~= pairs_map(init).insert(last.0@, last.1)) by {
            assert forall|k: Seq<char>| has_key(s, k) == (has_key(init, k) || k == last.0@) by {
                if has_key(init, k) {
                    let j = choose|j: int| 0 <= j < init.len() && #[trigger] init[j].0@ == k;
                    assert(s[j].0@ == k);
                }
                if has_key(s, k) && k != last.0@ {
                    let j = choose|j: int| 0 <= j < s.len() && #[trigger] s[j].0@ == k;
                    assert(init[j].0@ == k);
                }
            }
            assert forall|k: Seq<char>| #[trigger]
                pairs_map(s).contains_key(k) && k != last.0@ implies pairs_map(s)[k] == pairs_map(
                init,
            )[k] by {
                let j = choose|j: int| 0 <= j < s.len() && #[trigger] s[j].0@ == k;
                assert(j != s.len() - 1);
                lemma_pairs_map_at(s, j);
                lemma_pairs_map_at(init, j);
            }
        }
    }
}

pub struct StringMap<V> {
    entries: Vec<(String, V)>,
}

impl<V> View for StringMap<V> {
    type V = Map<Seq<char>, V>;

    closed spec fn view(&self) -> Map<Seq<char>, V> {
        pairs_map(self.entries@)
    }
}

impl<V> StringMap<V> {
    /// The invariant: no key occurs twice.
    pub closed spec fn wf(&self) -> bool {
        keys_unique(self.entries@)
    }

    /// The key of the pair at position `i`.
    pub closed spec fn key_at(&self, i: int) -> Seq<char> {
        self.entries@[i].0@
    }

    /// The number of pairs.
    pub closed spec fn spec_len(&self) -> nat {
        self.entries@.len()
    }

    pub fn new() -> (m: Self)
        ensures
            m.wf(),
            m@ == Map::<Seq<char>, V>::empty(),
    {
        let m = StringMap { entries: Vec::new() };
        assert(m@ =~= Map::<Seq<char>, V>::empty());
        m
    }

    /// The position of `key`, if the map has it.
    pub fn find(&self, key: &str) -> (r: Option<usize>)
        requires
            self.wf(),
        ensures
            r is None <==> !self@.contains_key(key@),
            r matches Some(i) ==> i < self.spec_len() && self.key_at(i as int) == key@,
    {
        let mut i: usize = 0;
        while i < self.entries.len()
            invariant
                i <= self.entries@.len(),
                forall|j: int| 0 <= j < i ==> #[trigger] self.entries@[j].0@ != key@,
            decreases self.entries@.len() - i,
        {
            if crate::text::str_eq(self.entries[i].0.as_str(), key) {
                return Some(i);
            }
            i = i + 1;
        }
        None
    }

    /// The value at `key`, if any.
    pub fn get(&self, key: &str) -> (r: Option<&V>)
        requires
            self.wf(),
        ensures
            r is None <==> !self@.contains_key(key@),
            r matches Some(v) ==> *v == self@[key@],
    {
        match self.find(key) {
            Some(i) => {
                proof {
                    lemma_pairs_map_at(self.entries@, i as int);
                }
                Some(&self.entries[i].1)
            },
            None => None,
        }
    }

    /// The value of the pair at position `i`, to change in place.
    pub fn value_at_mut(&mut self, i: usize) -> (r: &mut V)
        requires
            old(self).wf(),
            i < old(self).spec_len(),
        ensures
            *r == old(self)@[old(self).key_at(i as int)],
            final(self).wf(),
            final(self)@ == old(self)@.insert(old(self).key_at(i as int), *final(r)),
            forall|j: int|
                0 <= j < old(self).spec_len() ==> #[trigger] final(self).key_at(j) == old(
                    self,
                ).key_at(j),
            final(self).spec_len() == old(self).spec_len(),
    {
        proof {
            lemma_pairs_map_at(self.entries@, i as int);
        }
        let ghost before = self.entries@;
        let r = &mut self.entries[i].1;
        proof {
            let after = before.update(i as int, (before[i as int].0, *final(r)));
            assert(keys_unique(after));
            lemma_pairs_map_at(after, i as int);
            assert(pairs_map(after) =~= pairs_map(before).insert(before[i as int].0@, *final(r)))
                by {
                assert forall|k: Seq<char>| has_key(after, k) == has_key(before, k) by {
                    if has_key(before, k) {
                        let j = choose|j: int| 0 <= j < before.len() && #[trigger] before[j].0@ == k;
                        assert(after[j].0@ == k);
                    }
                    if has_key(after, k) {
                        let j = choose|j: int| 0 <= j < after.len() && #[trigger] after[j].0@ == k;
                        assert(before[j].0@ == k);
                    }
                }
                assert forall|k: Seq<char>| #[trigger]
                    pairs_map(after).contains_key(k) && k != before[i as int].0@ implies pairs_map(
                    after,
                )[k] == pairs_map(before)[k] by {
                    let j = choose|j: int| 0 <= j < after.len() && #[trigger] after[j].0@ == k;
                    lemma_pairs_map_at(after, j);
                    lemma_pairs_map_at(before, j);
                }
            }
        }
        r
    }

    /// Sets the value at `key`, adding the key if it is new.
    pub fn insert(&mut self, key: String, value: V)
        requires
            old(self).wf(),
        ensures
            final(self).wf(),
            final(self)@ == old(self)@.insert(key@, value),
    {
        match self.find(key.as_str()) {
            Some(i) => {
                let slot = self.value_at_mut(i);
                *slot = value;
            },
            None => {
                let ghost before = self.entries@;
                self.entries.push((key, value));
                proof {
                    let after = self.entries@;
                    assert(after =~= before.push((key, value)));
                    assert(keys_unique(after)) by {
                        assert forall|a: int, b: int|
                            0 <= a < after.len() && 0 <= b < after.len() && a != b implies #[trigger] after[a].0@
                            != #[trigger] after[b].0@ by {
                            if a == before.len() as int {
                                assert(!has_key(before, key@));
                                assert(before[b].0@ == after[b].0@);
                            } else if b == before.len() as int {
                                assert(!has_key(before, key@));
                                assert(before[a].0@ == after[a].0@);
                            }
                        }
                    }
                    lemma_pairs_map_at(after, before.len() as int);
                    assert(pairs_map(after) =~= pairs_map(before).insert(key@, value)) by {
                        assert forall|k: Seq<char>|
                            has_key(after, k) == (has_key(before, k) || k == key@) by {
                            if has_key(before, k) {
                                let j = choose|j: int|
                                    0 <= j < before.len() && #[trigger] before[j].0@ == k;
                                assert(after[j].0@ == k);
                            }
                            if has_key(after, k) && k != key@ {
                                let j = choose|j: int|
                                    0 <= j < after.len() && #[trigger] after[j].0@ == k;
                                assert(before[j].0@ == k);
                            }
                        }
                        assert forall|k: Seq<char>| #[trigger]
                            pairs_map(after).contains_key(k) && k != key@ implies pairs_map(
                            after,
                        )[k] == pairs_map(before)[k] by {
                            let j = choose|j: int|
                                0 <= j < after.len() && #[trigger] after[j].0@ == k;
                            lemma_pairs_map_at(after, j);
                            lemma_pairs_map_at(before, j);
                        }
                    }
                }
            },
        }
    }

    /// Removes `key`, returning the value it had.
    pub fn remove(&mut self, key: &str) -> (r: Option<V>)
        requires
            old(self).wf(),
        ensures
            final(self).wf(),
            final(self)@ == old(self)@.remove(key@),
            r is None <==> !old(self)@.contains_key(key@),
            r matches Some(v) ==> v == old(self)@[key@],
    {
        match self.find(key) {
            Some(i) => {
                proof {
                    lemma_pairs_map_at(self.entries@, i as int);
                }
                let ghost before = self.entries@;
                let (_, v) = self.entries.remove(i);
                proof {
                    let after = self.entries@;
                    assert(after =~= before.remove(i as int));
                    assert(keys_unique(after)) by {
                        assert forall|a: int, b: int|
                            0 <= a < after.len() && 0 <= b < after.len() && a != b implies #[trigger] after[a].0@
                            != #[trigger] after[b].0@ by {
                            let a0 = if a < i { a } else { a + 1 };
                            let b0 = if b < i { b } else { b + 1 };
                            assert(after[a] == before[a0]);
                            assert(after[b] == before[b0]);
                        }
                    }
                    assert(pairs_map(after) =~= pairs_map(before).remove(key@)) by {
                        assert forall|k: Seq<char>|
                            has_key(after, k) == (has_key(before, k) && k != key@) by {
                            if has_key(before, k) && k != key@ {
                                let j = choose|j: int|
                                    0 <= j < before.len() && #[trigger] before[j].0@ == k;
                                if j < i {
                                    assert(after[j].0@ == k);
                                } else {
                                    assert(j != i);
                                    assert(after[j - 1].0@ == k);
                                }
                            }
                            if has_key(after, k) {
                                let j = choose|j: int|
                                    0 <= j < after.len() && #[trigger] after[j].0@ == k;
                                let j0 = if j < i { j } else { j + 1 };
                                assert(before[j0].0@ == k);
                            }
                        }
                        assert forall|k: Seq<char>| #[trigger]
                            pairs_map(after).contains_key(k) implies pairs_map(after)[k]
                            == pairs_map(before)[k] by {
                            let j = choose|j: int|
                                0 <= j < after.len() && #[trigger] after[j].0@ == k;
                            let j0 = if j < i { j } else { j + 1 };
                            assert(before[j0] == after[j]);
                            lemma_pairs_map_at(after, j);
                            lemma_pairs_map_at(before, j0);
                        }
                    }
                }
                Some(v)
            },
            None => {
                assert(self@ =~= self@.remove(key@));
                None
            },
        }
    }

    /// Builds a map by inserting the pairs one after another.
    pub fn from_entries(pairs: Vec<(String, V)>) -> (m: Self)
        ensures
            m.wf(),
            m@ == insert_all(pairs@),
    {
        let mut m = StringMap::new();
        let mut pairs = pairs;
        let ghost all = pairs@;
        let mut rest: Vec<(String, V)> = Vec::new();
        // take the pairs from the back, then insert them front to back
        while pairs.len() > 0
            invariant
                all =~= pairs@ + rest@.reverse(),
            decreases pairs@.len(),
        {
            let p = pairs.pop().unwrap();
            let ghost before_rest = rest@;
            rest.push(p);
            assert(rest@.reverse() =~= seq![p] + before_rest.reverse());
        }
        let n = rest.len();
        assert(all =~= rest@.reverse());
        let mut i: usize = 0;
        while rest.len() > 0
            invariant
                i + rest@.len() == n,
                n == all.len(),
                all.subrange(i as int, n as int) =~= rest@.reverse(),
                m.wf(),
                m@ == insert_all(all.take(i as int)),
            decreases rest@.len(),
        {
            let ghost before_rest = rest@;
            let (k, v) = rest.pop().unwrap();
            assert(all.subrange(i as int, n as int)[0] == before_rest.reverse()[0]);
            assert(all[i as int] == before_rest.last());
            assert(before_rest.drop_last().reverse() =~= before_rest.reverse().subrange(
                1,
                before_rest.len() as int,
            ));
            assert(all.take(i + 1).drop_last() =~= all.take(i as int));
            m.insert(k, v);
            i = i + 1;
            assert(all.subrange(i as int, n as int) =~= rest@.reverse());
        }
        assert(all.take(n as int) =~= all);
        m
    }

    /// The pairs of the map, keys distinct, in no particular order.
    pub fn into_entries(self) -> (pairs: Vec<(String, V)>)
        requires
            self.wf(),
        ensures
            keys_unique(pairs@),
            pairs_map(pairs@) == self@,
    {
        self.entries
    }
}

} // verus!
