//! A string-keyed map, kept as a vector of pairs with distinct keys.
//!
//! The registry needs three tables keyed by names (type names, action names,
//! description names).  This map stores the pairs in insertion order and is
//! specified through [`StrMap::as_map`], its view as a `Map<Seq<char>, V>`.

use vstd::prelude::*;

use crate::text::str_eq;

verus! {

/// The map that a sequence of key/value pairs denotes: later pairs win.
pub open spec fn pairs_as_map<V>(pairs: Seq<(String, V)>) -> Map<Seq<char>, V>
    decreases pairs.len(),
{
    if pairs.len() == 0 {
        Map::empty()
    } else {
        pairs_as_map(pairs.drop_last()).insert(pairs.last().0@, pairs.last().1)
    }
}

/// A table from string keys to values, with each key held at most once.
pub struct StrMap<V> {
    pairs: Vec<(String, V)>,
}

impl<V> StrMap<V> {
    /// No two pairs share a key.
    pub closed spec fn wf(self) -> bool {
        forall|i: int, j: int|
            0 <= i < j < self.pairs@.len() ==> #[trigger] self.pairs@[i].0@ != #[trigger] self.pairs@[j].0@
    }

    /// The mathematical map this table holds.
    pub closed spec fn as_map(self) -> Map<Seq<char>, V> {
        pairs_as_map(self.pairs@)
    }

    pub fn new() -> (r: Self)
        ensures
            r.wf(),
            r.as_map() == Map::<Seq<char>, V>::empty(),
    {
        StrMap { pairs: Vec::new() }
    }

    /// Every key in the map is the key of some pair, and that pair's value is
    /// the map's value for it.
    proof fn lemma_map_pairs(pairs: Seq<(String, V)>)
        ensures
            forall|k: Seq<char>|
                #[trigger] pairs_as_map(pairs).contains_key(k) <==> exists|i: int|
                    0 <= i < pairs.len() && #[trigger] pairs[i].0@ == k,
            (forall|i: int, j: int|
                0 <= i < j < pairs.len() ==> #[trigger] pairs[i].0@ != #[trigger] pairs[j].0@)
                ==> forall|i: int|
                0 <= i < pairs.len() ==> pairs_as_map(pairs)[#[trigger] pairs[i].0@] == pairs[i].1,
        decreases pairs.len(),
    {
        if pairs.len() > 0 {
            let prefix = pairs.drop_last();
            let last = pairs.last();
            Self::lemma_map_pairs(prefix);
            assert forall|k: Seq<char>| #[trigger] pairs_as_map(pairs).contains_key(k) implies
                exists|i: int| 0 <= i < pairs.len() && #[trigger] pairs[i].0@ == k by {
                if k == last.0@ {
                    assert(pairs[pairs.len() - 1].0@ == k);
                } else {
                    assert(pairs_as_map(prefix).contains_key(k));
                    let i = choose|i: int| 0 <= i < prefix.len() && #[trigger] prefix[i].0@ == k;
                    assert(pairs[i].0@ == k);
                }
            }
            assert forall|i: int| 0 <= i < pairs.len() implies
                pairs_as_map(pairs).contains_key(#[trigger] pairs[i].0@) by {
                if i == pairs.len() - 1 {
                    assert(pairs_as_map(pairs).contains_key(last.0@));
                } else {
                    assert(prefix[i].0@ == pairs[i].0@);
                    assert(pairs_as_map(prefix).contains_key(prefix[i].0@));
                }
            }
            if forall|i: int, j: int|
                0 <= i < j < pairs.len() ==> #[trigger] pairs[i].0@ != #[trigger] pairs[j].0@ {
                assert forall|i: int| 0 <= i < pairs.len() implies
                    pairs_as_map(pairs)[#[trigger] pairs[i].0@] == pairs[i].1 by {
                    if i == pairs.len() - 1 {
                        assert(pairs_as_map(pairs)[last.0@] == last.1);
                    } else {
                        assert(prefix[i] == pairs[i]);
                        assert(pairs[i].0@ != last.0@);
                        assert(pairs_as_map(pairs)[pairs[i].0@] == pairs_as_map(prefix)[prefix[i].0@]);
                    }
                }
            }
        }
    }

    fn index_of(&self, name: &str) -> (r: Option<usize>)
        ensures
            match r {
                Some(i) => i < self.pairs@.len() && self.pairs@[i as int].0@ == name@,
                None => forall|i: int| 0 <= i < self.pairs@.len() ==> #[trigger] self.pairs@[i].0@ != name@,
            },
    {
        let n = self.pairs.len();
        for i in 0..n
            invariant
                n == self.pairs@.len(),
                forall|j: int| 0 <= j < i ==> #[trigger] self.pairs@[j].0@ != name@,
        {
            if str_eq(self.pairs[i].0.as_str(), name) {
                return Some(i);
            }
        }
        None
    }

    pub fn get(&self, name: &str) -> (r: Option<&V>)
        requires
            self.wf(),
        ensures
            match r {
                Some(v) => self.as_map().contains_key(name@) && *v == self.as_map()[name@],
                None => !self.as_map().contains_key(name@),
            },
    {
        proof {
            Self::lemma_map_pairs(self.pairs@);
        }
        match self.index_of(name) {
            Some(i) => Some(&self.pairs[i].1),
            None => None,
        }
    }

    /// Replacing one pair's value changes the map at that pair's key alone.
    proof fn lemma_map_update(pairs: Seq<(String, V)>, i: int, p: (String, V))
        requires
            0 <= i < pairs.len(),
            pairs[i].0@ == p.0@,
            forall|x: int, y: int|
                0 <= x < y < pairs.len() ==> #[trigger] pairs[x].0@ != #[trigger] pairs[y].0@,
        ensures
            pairs_as_map(pairs.update(i, p)) == pairs_as_map(pairs).insert(p.0@, p.1),
        decreases pairs.len(),
    {
        Self::lemma_map_pairs(pairs);
        Self::lemma_map_pairs(pairs.update(i, p));
        if i == pairs.len() - 1 {
            assert(pairs.update(i, p).drop_last() =~= pairs.drop_last());
            assert(pairs_as_map(pairs.update(i, p)) =~= pairs_as_map(pairs).insert(p.0@, p.1));
        } else {
            Self::lemma_map_update(pairs.drop_last(), i, p);
            assert(pairs.update(i, p).drop_last() =~= pairs.drop_last().update(i, p));
            assert(pairs.update(i, p).last() == pairs.last());
            assert(pairs_as_map(pairs.update(i, p)) =~= pairs_as_map(pairs).insert(p.0@, p.1));
        }
    }

    /// Inserts the pair, overwriting the value of an already-present key.
    pub fn insert(&mut self, name: String, value: V)
        requires
            old(self).wf(),
        ensures
            final(self).wf(),
            final(self).as_map() == old(self).as_map().insert(name@, value),
    {
        proof {
            Self::lemma_map_pairs(self.pairs@);
        }
        match self.index_of(name.as_str()) {
            Some(i) => {
                let ghost pairs0 = self.pairs@;
                self.pairs.set(i, (name, value));
                proof {
                    Self::lemma_map_update(pairs0, i as int, self.pairs@[i as int]);
                }
            },
            None => {
                self.pairs.push((name, value));
                proof {
                    assert(self.pairs@.drop_last() =~= old(self).pairs@);
                }
            },
        }
    }

    /// Removing one pair takes that pair's key out of the map.
    proof fn lemma_map_remove(pairs: Seq<(String, V)>, i: int)
        requires
            0 <= i < pairs.len(),
            forall|x: int, y: int|
                0 <= x < y < pairs.len() ==> #[trigger] pairs[x].0@ != #[trigger] pairs[y].0@,
        ensures
            pairs_as_map(pairs.remove(i)) == pairs_as_map(pairs).remove(pairs[i].0@),
        decreases pairs.len(),
    {
        Self::lemma_map_pairs(pairs);
        Self::lemma_map_pairs(pairs.remove(i));
        if i == pairs.len() - 1 {
            assert(pairs.remove(i) =~= pairs.drop_last());
            assert(pairs_as_map(pairs.remove(i)) =~= pairs_as_map(pairs).remove(pairs[i].0@));
        } else {
            Self::lemma_map_remove(pairs.drop_last(), i);
            assert(pairs.remove(i).drop_last() =~= pairs.drop_last().remove(i));
            assert(pairs.remove(i).last() == pairs.last());
            assert(pairs_as_map(pairs.remove(i)) =~= pairs_as_map(pairs).remove(pairs[i].0@));
        }
    }

    /// Removes the key if present; without it the map stays as it was.
    pub fn remove(&mut self, name: &str)
        requires
            old(self).wf(),
        ensures
            final(self).wf(),
            final(self).as_map() == old(self).as_map().remove(name@),
    {
        proof {
            Self::lemma_map_pairs(self.pairs@);
        }
        match self.index_of(name) {
            Some(i) => {
                let ghost pairs0 = self.pairs@;
                self.pairs.remove(i);
                proof {
                    Self::lemma_map_remove(pairs0, i as int);
                }
            },
            None => {
                proof {
                    assert(self.as_map() =~= self.as_map().remove(name@));
                }
            },
        }
    }
}

} // verus!
