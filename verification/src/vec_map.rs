//! A small map for keys that can only be compared for equality.
use vstd::prelude::*;

verus! {

/// A type whose values can be compared and copied exactly.
pub trait MapKey: Sized {
    /// Whether two keys are the same value.
    fn key_eq(&self, other: &Self) -> (same: bool)
        ensures
            same == (*self == *other),
    ;

    /// A second copy of the key.
    fn key_copy(&self) -> (copy: Self)
        ensures
            copy == *self,
    ;
}

/// A map backed by a vector of pairs. No key occurs twice.
pub struct VecMap<K: MapKey, V> {
    items: Vec<(K, V)>,
}

/// The map that a list of pairs with distinct keys stands for.
pub open spec fn pairs_to_map<K, V>(pairs: Seq<(K, V)>) -> Map<K, V>
    decreases pairs.len(),
{
    if pairs.len() == 0 {
        Map::empty()
    } else {
        pairs_to_map(pairs.drop_last()).insert(pairs.last().0, pairs.last().1)
    }
}

/// No two pairs carry the same key.
pub open spec fn distinct_keys<K, V>(pairs: Seq<(K, V)>) -> bool {
    forall|i: int, j: int|
        #![trigger pairs[i], pairs[j]]
        0 <= i < j < pairs.len() ==> pairs[i].0 != pairs[j].0
}

proof fn lemma_pairs<K, V>(pairs: Seq<(K, V)>)
    requires
        distinct_keys(pairs),
    ensures
        pairs_to_map(pairs).dom().finite(),
        pairs_to_map(pairs).len() == pairs.len(),
        forall|i: int|
            #![trigger pairs[i]]
            0 <= i < pairs.len() ==> pairs_to_map(pairs).dom().contains(pairs[i].0)
                && pairs_to_map(pairs)[pairs[i].0] == pairs[i].1,
        forall|k: K| #[trigger]
            pairs_to_map(pairs).dom().contains(k) ==> exists|i: int|
                0 <= i < pairs.len() && (#[trigger] pairs[i]).0 == k,
    decreases pairs.len(),
{
    if pairs.len() > 0 {
        let front = pairs.drop_last();
        assert(distinct_keys(front)) by {
            assert forall|i: int, j: int|
                #![trigger front[i], front[j]]
                0 <= i < j < front.len() implies front[i].0 != front[j].0 by {
                assert(front[i] == pairs[i] && front[j] == pairs[j]);
            }
        }
        lemma_pairs(front);
        let last = pairs.last();
        assert(!pairs_to_map(front).dom().contains(last.0)) by {
            if pairs_to_map(front).dom().contains(last.0) {
                let i = choose|i: int| 0 <= i < front.len() && (#[trigger] front[i]).0 == last.0;
                assert(pairs[i] == front[i]);
                assert(pairs[i].0 != pairs[pairs.len() - 1].0);
            }
        }
        assert forall|i: int|
            #![trigger pairs[i]]
            0 <= i < pairs.len() implies pairs_to_map(pairs).dom().contains(pairs[i].0)
            && pairs_to_map(pairs)[pairs[i].0] == pairs[i].1 by {
            if i < front.len() {
                assert(front[i] == pairs[i]);
            }
        }
        assert forall|k: K| #[trigger] pairs_to_map(pairs).dom().contains(k) implies exists|i: int|
            0 <= i < pairs.len() && (#[trigger] pairs[i]).0 == k by {
            if k == last.0 {
                assert(pairs[pairs.len() - 1].0 == k);
            } else {
                assert(pairs_to_map(front).dom().contains(k));
                let i = choose|i: int| 0 <= i < front.len() && (#[trigger] front[i]).0 == k;
                assert(pairs[i] == front[i]);
            }
        }
    }
}

/// Two lists of pairs with distinct keys that hold the same pairs stand for the same map.
proof fn lemma_pairs_determine<K, V>(pairs: Seq<(K, V)>, m: Map<K, V>)
    requires
        distinct_keys(pairs),
        forall|i: int|
            #![trigger pairs[i]]
            0 <= i < pairs.len() ==> m.dom().contains(pairs[i].0) && m[pairs[i].0] == pairs[i].1,
        forall|k: K| #[trigger]
            m.dom().contains(k) ==> exists|i: int|
                0 <= i < pairs.len() && (#[trigger] pairs[i]).0 == k,
    ensures
        pairs_to_map(pairs) == m,
{
    lemma_pairs(pairs);
    assert(pairs_to_map(pairs) =~= m) by {
        assert forall|k: K| pairs_to_map(pairs).dom().contains(k) <==> m.dom().contains(k) by {
            if pairs_to_map(pairs).dom().contains(k) {
                let i = choose|i: int| 0 <= i < pairs.len() && (#[trigger] pairs[i]).0 == k;
                assert(pairs[i].0 == k);
            }
            if m.dom().contains(k) {
                let i = choose|i: int| 0 <= i < pairs.len() && (#[trigger] pairs[i]).0 == k;
                assert(pairs[i].0 == k);
            }
        }
        assert forall|k: K| pairs_to_map(pairs).dom().contains(k) implies pairs_to_map(pairs)[k]
            == m[k] by {
            let i = choose|i: int| 0 <= i < pairs.len() && (#[trigger] pairs[i]).0 == k;
            assert(pairs[i].0 == k);
        }
    }
}

impl<K: MapKey, V> View for VecMap<K, V> {
    type V = Map<K, V>;

    closed spec fn view(&self) -> Map<K, V> {
        pairs_to_map(self.items@)
    }
}

impl<K: MapKey, V> VecMap<K, V> {
    #[verifier::type_invariant]
    spec fn inv(self) -> bool {
        distinct_keys(self.items@)
    }

    /// The pairs in the order in which the map holds them.
    pub closed spec fn pairs(self) -> Seq<(K, V)> {
        self.items@
    }

    /// What the pairs say of the map: each key once, with its value.
    pub open spec fn pairs_agree(self) -> bool {
        &&& self@ == pairs_to_map(self.pairs())
        &&& distinct_keys(self.pairs())
        &&& self@.dom().finite()
        &&& self@.len() == self.pairs().len()
        &&& forall|i: int|
            #![trigger self.pairs()[i]]
            0 <= i < self.pairs().len() ==> self@.dom().contains(self.pairs()[i].0)
                && self@[self.pairs()[i].0] == self.pairs()[i].1
        &&& forall|k: K| #[trigger]
            self@.dom().contains(k) ==> exists|i: int|
                0 <= i < self.pairs().len() && (#[trigger] self.pairs()[i]).0 == k
    }

    /// An empty map.
    pub fn new() -> (m: Self)
        ensures
            m@ == Map::<K, V>::empty(),
    {
        VecMap { items: Vec::new() }
    }

    /// The number of keys.
    pub fn len(&self) -> (n: usize)
        ensures
            n == self@.len(),
            n == self.pairs().len(),
            self.pairs_agree(),
    {
        proof {
            use_type_invariant(self);
            lemma_pairs(self.items@);
        }
        self.items.len()
    }

    /// The pair at a position of the list of pairs.
    pub fn pair_at(&self, i: usize) -> (pair: &(K, V))
        requires
            i < self.pairs().len(),
        ensures
            *pair == self.pairs()[i as int],
    {
        &self.items[i]
    }

    fn position(&self, key: &K) -> (pos: Option<usize>)
        ensures
            match pos {
                Some(i) => i < self.pairs().len() && self.pairs()[i as int].0 == *key,
                None => forall|i: int|
                    0 <= i < self.pairs().len() ==> (#[trigger] self.pairs()[i]).0 != *key,
            },
            pos is Some == self@.dom().contains(*key),
            pos matches Some(i) ==> self@[*key] == self.pairs()[i as int].1,
    {
        proof {
            use_type_invariant(self);
            lemma_pairs(self.items@);
        }
        let mut i: usize = 0;
        while i < self.items.len()
            invariant
                i <= self.items@.len(),
                self.pairs() == self.items@,
                self.pairs_agree(),
                forall|j: int| 0 <= j < i ==> (#[trigger] self.pairs()[j]).0 != *key,
            decreases self.items@.len() - i,
        {
            if self.items[i].0.key_eq(key) {
                return Some(i);
            }
            i += 1;
        }
        None
    }

    /// Whether a key has a value.
    pub fn contains_key(&self, key: &K) -> (found: bool)
        ensures
            found == self@.dom().contains(*key),
    {
        self.position(key).is_some()
    }

    /// The value of a key.
    pub fn get(&self, key: &K) -> (value: Option<&V>)
        ensures
            match value {
                Some(v) => self@.dom().contains(*key) && self@[*key] == *v,
                None => !self@.dom().contains(*key),
            },
    {
        match self.position(key) {
            Some(i) => Some(&self.items[i].1),
            None => None,
        }
    }

    /// Takes a key out of the map, giving back its value.
    pub fn remove(&mut self, key: &K) -> (value: Option<V>)
        ensures
            final(self)@ == old(self)@.remove(*key),
            value == (if old(self)@.dom().contains(*key) { Some(old(self)@[*key]) } else { None }),
    {
        match self.position(key) {
            None => {
                assert(self@.remove(*key) =~= self@);
                None
            },
            Some(i) => {
                proof {
                    use_type_invariant(&*self);
                    lemma_pairs(self.items@);
                }
                let ghost before = self.items@;
                let mut items: Vec<(K, V)> = Vec::new();
                std::mem::swap(&mut items, &mut self.items);
                let pair = items.remove(i);
                proof {
                    let after = items@;
                    assert forall|a: int, b: int|
                        #![trigger after[a], after[b]]
                        0 <= a < b < after.len() implies after[a].0 != after[b].0 by {
                        let a0 = if a < i { a } else { a + 1 };
                        let b0 = if b < i { b } else { b + 1 };
                        assert(after[a] == before[a0] && after[b] == before[b0]);
                    }
                    let m = pairs_to_map(before).remove(*key);
                    assert forall|a: int|
                        #![trigger after[a]]
                        0 <= a < after.len() implies m.dom().contains(after[a].0) && m[after[a].0]
                        == after[a].1 by {
                        let a0 = if a < i { a } else { a + 1 };
                        assert(after[a] == before[a0]);
                        assert(before[a0].0 != before[i as int].0);
                    }
                    assert forall|k: K| #[trigger] m.dom().contains(k) implies exists|a: int|
                        0 <= a < after.len() && (#[trigger] after[a]).0 == k by {
                        assert(pairs_to_map(before).dom().contains(k));
                        let a0 = choose|a: int|
                            0 <= a < before.len() && (#[trigger] before[a]).0 == k;
                        let a = if a0 < i { a0 } else { a0 - 1 };
                        assert(after[a] == before[a0]);
                    }
                    lemma_pairs_determine(after, m);
                }
                self.items = items;
                Some(pair.1)
            },
        }
    }

    /// Gives a key a value, in place of any it had.
    pub fn insert(&mut self, key: K, value: V) -> (previous: Option<V>)
        ensures
            final(self)@ == old(self)@.insert(key, value),
            previous == (if old(self)@.dom().contains(key) {
                Some(old(self)@[key])
            } else {
                None
            }),
    {
        let ghost m0 = self@;
        let previous = self.remove(&key);
        proof {
            use_type_invariant(&*self);
            lemma_pairs(self.items@);
        }
        let ghost before = self.items@;
        let mut items: Vec<(K, V)> = Vec::new();
        std::mem::swap(&mut items, &mut self.items);
        items.push((key, value));
        proof {
            let after = items@;
            assert(after.drop_last() =~= before);
            assert forall|a: int, b: int|
                #![trigger after[a], after[b]]
                0 <= a < b < after.len() implies after[a].0 != after[b].0 by {
                assert(after[a] == before[a]);
                if b < before.len() {
                    assert(after[b] == before[b]);
                } else {
                    assert(pairs_to_map(before).dom().contains(before[a].0));
                }
            }
            assert(m0.remove(key).insert(key, value) =~= m0.insert(key, value));
        }
        self.items = items;
        previous
    }
}

/// A map holds just the pairs that are listed, each key with its value.
pub proof fn law_maps_hold_the_listed_pairs<K, V>(pairs: Seq<(K, V)>, i: int, key: K)
    requires
        forall|a: int, b: int|
            #![trigger pairs[a], pairs[b]]
            0 <= a < b < pairs.len() ==> pairs[a].0 != pairs[b].0,
    ensures
        0 <= i < pairs.len() ==> pairs_to_map(pairs).dom().contains(pairs[i].0) && pairs_to_map(
            pairs,
        )[pairs[i].0] == pairs[i].1,
        pairs_to_map(pairs).dom().contains(key) ==> exists|k: int|
            0 <= k < pairs.len() && (#[trigger] pairs[k]).0 == key,
        pairs_to_map(pairs).len() == pairs.len(),
        distinct_keys(pairs),
{
    lemma_pairs(pairs);
}

} // verus!
