use vstd::prelude::*;
use crate::text::str_eq;

verus! {

/// One key/value pair of the metadata that travels with a stream.
#[derive(Debug)]
pub struct Metadata {
    pub key: String,
    pub val: String,
}

impl View for Metadata {
    type V = (Seq<char>, Seq<char>);

    open spec fn view(&self) -> (Seq<char>, Seq<char>) {
        (self.key@, self.val@)
    }
}

/// The pairs of a list of metadata entries.
pub open spec fn pairs_view(s: Seq<Metadata>) -> Seq<(Seq<char>, Seq<char>)> {
    s.map_values(|m: Metadata| m@)
}

/// The map that inserting the pairs one after another builds: a later pair
/// replaces an earlier one with the same key.
pub open spec fn map_of(s: Seq<(Seq<char>, Seq<char>)>) -> Map<Seq<char>, Seq<char>>
    decreases s.len(),
{
    if s.len() == 0 {
        Map::empty()
    } else {
        map_of(s.drop_last()).insert(s.last().0, s.last().1)
    }
}

/// No key occurs twice.
pub open spec fn distinct_keys(s: Seq<(Seq<char>, Seq<char>)>) -> bool {
    forall|i: int, j: int| 0 <= i < s.len() && 0 <= j < s.len() && i != j ==> s[i].0 != s[j].0
}

/// In a list whose keys are distinct, the map holds exactly the listed pairs.
pub proof fn lemma_map_of_distinct(s: Seq<(Seq<char>, Seq<char>)>)
    requires
        distinct_keys(s),
    ensures
        forall|i: int|
            0 <= i < s.len() ==> #[trigger] map_of(s).contains_key(s[i].0) && map_of(s)[s[i].0]
                == s[i].1,
        forall|k: Seq<char>|
            #[trigger] map_of(s).contains_key(k) ==> exists|i: int| 0 <= i < s.len() && s[i].0 == k,
    decreases s.len(),
{
    if s.len() > 0 {
        let t = s.drop_last();
        assert(distinct_keys(t));
        lemma_map_of_distinct(t);
        assert forall|i: int| 0 <= i < s.len() implies #[trigger] map_of(s).contains_key(s[i].0)
            && map_of(s)[s[i].0] == s[i].1 by {
            if i < s.len() - 1 {
                assert(t[i] == s[i]);
                assert(map_of(t).contains_key(t[i].0));
            }
        }
        assert forall|k: Seq<char>| #[trigger] map_of(s).contains_key(k) implies exists|i: int|
            0 <= i < s.len() && s[i].0 == k by {
            if k != s.last().0 {
                assert(map_of(t).contains_key(k));
                let i = choose|i: int| 0 <= i < t.len() && t[i].0 == k;
                assert(s[i].0 == k);
            } else {
                assert(s[s.len() - 1].0 == k);
            }
        }
    }
}

/// The pairs after setting `k` to `v`: the pair with that key is replaced
/// where it stands, or the new pair goes last.
pub open spec fn insert_pair(ps: Seq<(Seq<char>, Seq<char>)>, k: Seq<char>, v: Seq<char>) -> Seq<
    (Seq<char>, Seq<char>),
> {
    if exists|i: int| 0 <= i < ps.len() && ps[i].0 == k {
        ps.update(choose|i: int| 0 <= i < ps.len() && ps[i].0 == k, (k, v))
    } else {
        ps.push((k, v))
    }
}

/// The pairs, one per key, that setting each pair in turn leaves: each key
/// where it first came, with the last value it was given.
pub open spec fn pairs_of(s: Seq<(Seq<char>, Seq<char>)>) -> Seq<(Seq<char>, Seq<char>)>
    decreases s.len(),
{
    if s.len() == 0 {
        Seq::empty()
    } else {
        insert_pair(pairs_of(s.drop_last()), s.last().0, s.last().1)
    }
}

/// A map from metadata keys to values, filled as a hash map would be: one value
/// per key, the last one inserted.
pub struct MetadataMap {
    entries: Vec<Metadata>,
}

impl MetadataMap {
    /// The pairs, one per key, in the order in which their keys first came.
    pub closed spec fn pairs(&self) -> Seq<(Seq<char>, Seq<char>)> {
        pairs_view(self.entries@)
    }

    /// Each key is held once.
    #[verifier::type_invariant]
    spec fn wf(&self) -> bool {
        distinct_keys(self.pairs())
    }

    /// An empty map.
    pub fn new() -> (m: MetadataMap)
        ensures
            m@ == Map::<Seq<char>, Seq<char>>::empty(),
            m.pairs() == Seq::<(Seq<char>, Seq<char>)>::empty(),
    {
        let m = MetadataMap { entries: Vec::new() };
        assert(m.pairs() =~= Seq::<(Seq<char>, Seq<char>)>::empty());
        m
    }

    /// The position of `key` among the entries, if it is there.
    fn position(&self, key: &str) -> (r: Option<usize>)
        ensures
            match r {
                Some(i) => i < self.pairs().len() && self.pairs()[i as int].0 == key@,
                None => forall|i: int| 0 <= i < self.pairs().len() ==> self.pairs()[i].0 != key@,
            },
    {
        let mut i: usize = 0;
        while i < self.entries.len()
            invariant
                i <= self.entries@.len(),
                self.pairs().len() == self.entries@.len(),
                forall|j: int| 0 <= j < i ==> self.pairs()[j].0 != key@,
            decreases self.entries@.len() - i,
        {
            if str_eq(self.entries[i].key.as_str(), key) {
                return Some(i);
            }
            i = i + 1;
        }
        None
    }

    /// The value held for `key`.
    pub fn get(&self, key: &str) -> (r: Option<&String>)
        ensures
            match r {
                Some(v) => self@.contains_key(key@) && self@[key@] == v@,
                None => !self@.contains_key(key@),
            },
    {
        proof {
            use_type_invariant(self);
            lemma_map_of_distinct(self.pairs());
        }
        match self.position(key) {
            Some(i) => {
                assert(self.pairs()[i as int] == self.entries@[i as int]@);
                assert(map_of(self.pairs()).contains_key(self.pairs()[i as int].0));
                Some(&self.entries[i].val)
            },
            None => None,
        }
    }

    /// Sets the value of `key`, replacing the one it held.
    pub fn insert(&mut self, key: String, val: String)
        ensures
            final(self)@ == old(self)@.insert(key@, val@),
            old(self)@.contains_key(key@) ==> exists|i: int|
                0 <= i < old(self).pairs().len() && old(self).pairs()[i].0 == key@
                    && final(self).pairs() == old(self).pairs().update(i, (key@, val@)),
            !old(self)@.contains_key(key@) ==> final(self).pairs() == old(self).pairs().push(
                (key@, val@),
            ),
            final(self).pairs() == insert_pair(old(self).pairs(), key@, val@),
    {
        proof {
            use_type_invariant(&*self);
        }
        let ghost old_pairs = self.pairs();
        proof {
            lemma_map_of_distinct(old_pairs);
        }
        match self.position(key.as_str()) {
            Some(i) => {
                let ghost k = key@;
                let ghost v = val@;
                let mut entries: Vec<Metadata> = Vec::new();
                std::mem::swap(&mut entries, &mut self.entries);
                entries.set(i, Metadata { key, val });
                proof {
                    let new_pairs = old_pairs.update(i as int, (k, v));
                    assert(pairs_view(entries@) =~= new_pairs);
                    assert(distinct_keys(new_pairs));
                }
                self.entries = entries;
                proof {
                    let new_pairs = old_pairs.update(i as int, (k, v));
                    assert(self.pairs() =~= new_pairs);
                    lemma_map_of_distinct(new_pairs);
                    assert(map_of(new_pairs) =~= map_of(old_pairs).insert(k, v)) by {
                        assert forall|q: Seq<char>| #[trigger]
                            map_of(new_pairs).contains_key(q) implies map_of(old_pairs).insert(
                            k,
                            v,
                        ).contains_key(q) by {
                            let j = choose|j: int| 0 <= j < new_pairs.len() && new_pairs[j].0 == q;
                            if j != i {
                                assert(old_pairs[j].0 == q);
                            }
                        }
                        assert forall|q: Seq<char>| #[trigger]
                            map_of(old_pairs).insert(k, v).contains_key(q) implies map_of(
                            new_pairs,
                        ).contains_key(q) && map_of(new_pairs)[q] == map_of(old_pairs).insert(
                            k,
                            v,
                        )[q] by {
                            if q == k {
                                assert(new_pairs[i as int].0 == q);
                            } else {
                                let j = choose|j: int| 0 <= j < old_pairs.len() && old_pairs[j].0 == q;
                                assert(new_pairs[j] == old_pairs[j]);
                            }
                        }
                    }
                }
            },
            None => {
                let ghost k = key@;
                let ghost v = val@;
                let mut entries: Vec<Metadata> = Vec::new();
                std::mem::swap(&mut entries, &mut self.entries);
                entries.push(Metadata { key, val });
                proof {
                    let new_pairs = old_pairs.push((k, v));
                    assert(pairs_view(entries@) =~= new_pairs);
                    assert(new_pairs.drop_last() =~= old_pairs);
                    assert(distinct_keys(new_pairs)) by {
                        assert forall|a: int, b: int|
                            0 <= a < new_pairs.len() && 0 <= b < new_pairs.len() && a != b implies new_pairs[a].0
                            != new_pairs[b].0 by {
                            if a < old_pairs.len() && b < old_pairs.len() {
                                assert(new_pairs[a] == old_pairs[a] && new_pairs[b] == old_pairs[b]);
                            } else if a < old_pairs.len() {
                                assert(new_pairs[a] == old_pairs[a]);
                            } else {
                                assert(new_pairs[b] == old_pairs[b]);
                            }
                        }
                    }
                }
                self.entries = entries;
                proof {
                    let new_pairs = old_pairs.push((k, v));
                    assert(self.pairs() =~= new_pairs);
                }
            },
        }
    }

    /// The map that inserting the entries in order builds.
    pub fn from_entries(entries: Vec<Metadata>) -> (m: MetadataMap)
        ensures
            m@ == map_of(pairs_view(entries@)),
            m.pairs() == pairs_of(pairs_view(entries@)),
    {
        let mut m = MetadataMap::new();
        let ghost all = pairs_view(entries@);
        assert(all.take(0) =~= Seq::<(Seq<char>, Seq<char>)>::empty());
        let n = entries.len();
        let mut i: usize = 0;
        while i < n
            invariant
                i <= n,
                n == all.len(),
                n == entries@.len(),
                all == pairs_view(entries@),
                m@ == map_of(all.take(i as int)),
                m.pairs() == pairs_of(all.take(i as int)),
            decreases n - i,
        {
            let e = &entries[i];
            proof {
                assert(all.take(i + 1).drop_last() =~= all.take(i as int));
                assert(all.take(i + 1).last() == e@);
            }
            m.insert(e.key.clone(), e.val.clone());
            i = i + 1;
        }
        proof {
            assert(all.take(n as int) =~= all);
        }
        m
    }

    /// The entries, one per key.
    pub fn entries(&self) -> (r: &Vec<Metadata>)
        ensures
            pairs_view(r@) == self.pairs(),
            distinct_keys(self.pairs()),
            map_of(self.pairs()) == self@,
    {
        proof {
            use_type_invariant(self);
        }
        &self.entries
    }
}

impl View for MetadataMap {
    type V = Map<Seq<char>, Seq<char>>;

    closed spec fn view(&self) -> Map<Seq<char>, Seq<char>> {
        map_of(self.pairs())
    }
}

} // verus!
