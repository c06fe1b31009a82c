use vstd::prelude::*;
use crate::strmap::StrMap;
use crate::value::{Val, NodeValue, clone_value};

verus! {

/// The mathematical content of a string-keyed map of values.
pub open spec fn dv_map(m: Map<Seq<char>, NodeValue>) -> Map<Seq<char>, Val> {
    Map::new(|k: Seq<char>| m.contains_key(k), |k: Seq<char>| m[k].dv())
}

/// The restriction of `m` to the first `i` keys of `ks`.
spec fn prefix_map(m: Map<Seq<char>, Val>, ks: Seq<Seq<char>>, i: int) -> Map<Seq<char>, Val> {
    Map::new(|k: Seq<char>| ks.subrange(0, i).contains(k), |k: Seq<char>| m[k])
}

/// The shared key-value store threaded through a traversal, and also the
/// shape of per-unit parameters. Keys are strings, values are generic values;
/// the view is the mathematical map from key characters to mathematical
/// values.
pub struct State {
    inner: StrMap<NodeValue>,
}

impl State {
    pub closed spec fn view(&self) -> Map<Seq<char>, Val> {
        dv_map(self.inner@)
    }

    pub fn new() -> (r: State)
        ensures
            r@ == Map::<Seq<char>, Val>::empty(),
    {
        let r = State { inner: StrMap::new() };
        proof {
            assert(r@ =~= Map::<Seq<char>, Val>::empty());
        }
        r
    }

    pub fn is_empty(&self) -> (r: bool)
        ensures
            r == (self@ == Map::<Seq<char>, Val>::empty()),
    {
        let e = self.inner.is_empty();
        proof {
            if e {
                assert(self@ =~= Map::<Seq<char>, Val>::empty());
            } else {
                let k = choose|k: Seq<char>| self.inner@.contains_key(k);
                assert(self@.contains_key(k));
                assert(!Map::<Seq<char>, Val>::empty().contains_key(k));
            }
        }
        e
    }

    pub fn len(&self) -> (r: usize)
        ensures
            r == self@.dom().len(),
    {
        proof {
            assert(self@.dom() =~= self.inner@.dom());
        }
        self.inner.len()
    }

    pub fn contains_key(&self, key: &str) -> (r: bool)
        ensures
            r == self@.contains_key(key@),
    {
        self.inner.contains_key(key)
    }

    /// Reads the value bound to `key`, if any.
    pub fn get(&self, key: &str) -> (r: Option<&NodeValue>)
        ensures
            match r {
                Some(v) => self@.contains_key(key@) && v.dv() == self@[key@],
                None => !self@.contains_key(key@),
            },
    {
        self.inner.get(key)
    }

    /// Binds `key` to `value`, replacing any previous binding.
    pub fn insert(&mut self, key: String, value: NodeValue)
        ensures
            final(self)@ == old(self)@.insert(key@, value.dv()),
    {
        let ghost k = key@;
        let ghost d = value.dv();
        self.inner.insert(key, value);
        proof {
            assert(final(self)@ =~= old(self)@.insert(k, d));
        }
    }

    /// The keys in storage order; distinct, and together exactly the domain
    /// of the map.
    pub closed spec fn key_seq(&self) -> Seq<Seq<char>> {
        self.inner.key_seq()
    }

    /// Number of stored entries, indexable by `key_at` / `value_at`. Its
    /// contract also publishes that the key sequence lists each key once and
    /// covers exactly the domain of the map.
    pub fn num_entries(&self) -> (r: usize)
        ensures
            r == self.key_seq().len(),
            forall|i: int, j: int| 0 <= i < j < self.key_seq().len()
                ==> self.key_seq()[i] != self.key_seq()[j],
            forall|i: int| 0 <= i < self.key_seq().len()
                ==> self@.contains_key(#[trigger] self.key_seq()[i]),
            forall|k: Seq<char>| self@.contains_key(k) ==> self.key_seq().contains(k),
    {
        let r = self.inner.num_entries();
        proof {
            assert forall|i: int| 0 <= i < self.key_seq().len()
                implies self@.contains_key(#[trigger] self.key_seq()[i]) by {
                assert(self.inner@.contains_key(self.key_seq()[i]));
            }
            assert forall|k: Seq<char>| self@.contains_key(k)
                implies self.key_seq().contains(k) by {
                assert(self.inner@.contains_key(k));
            }
        }
        r
    }

    pub fn key_at(&self, i: usize) -> (r: &String)
        requires
            i < self.key_seq().len(),
        ensures
            r@ == self.key_seq()[i as int],
    {
        self.inner.key_at(i)
    }

    pub fn value_at(&self, i: usize) -> (r: &NodeValue)
        requires
            i < self.key_seq().len(),
        ensures
            self@.contains_key(self.key_seq()[i as int]),
            r.dv() == self@[self.key_seq()[i as int]],
    {
        let r = self.inner.value_at(i);
        proof {
            assert(self.inner@.contains_key(self.key_seq()[i as int]));
        }
        r
    }

    /// Duplicates the state; the copy stands for the same mathematical map.
    pub fn clone_state(&self) -> (r: State)
        ensures
            r@ == self@,
    {
        let n = self.inner.num_entries();
        let ghost ks = self.inner.key_seq();
        let mut out: StrMap<NodeValue> = StrMap::new();
        let mut i: usize = 0;
        while i < n
            invariant
                i <= n,
                n == ks.len(),
                ks == self.inner.key_seq(),
                forall|a: int, b: int| 0 <= a < b < ks.len() ==> ks[a] != ks[b],
                forall|a: int| 0 <= a < ks.len()
                    ==> self.inner@.contains_key(#[trigger] ks[a]),
                forall|k: Seq<char>| self.inner@.contains_key(k) ==> ks.contains(k),
                forall|k: Seq<char>| out@.contains_key(k)
                    ==> self.inner@.contains_key(k) && out@[k].dv() == self.inner@[k].dv(),
                forall|a: int| 0 <= a < i as int ==> out@.contains_key(#[trigger] ks[a]),
            decreases n - i,
        {
            let key = self.inner.key_at(i);
            let val = self.inner.value_at(i);
            out.insert(key.clone(), clone_value(val));
            i = i + 1;
        }
        let r = State { inner: out };
        proof {
            assert forall|k: Seq<char>| self.inner@.contains_key(k)
                implies r.inner@.contains_key(k) by {
                assert(ks.contains(k));
                let j = choose|j: int| 0 <= j < ks.len() && ks[j] == k;
                assert(r.inner@.contains_key(ks[j]));
            }
            assert(r@ =~= self@);
        }
        r
    }

    /// The union of two states where, on a shared key, the overlay's binding
    /// wins.
    pub fn overlay(base: &State, over: &State) -> (r: State)
        ensures
            r@ == base@.union_prefer_right(over@),
    {
        let mut r = base.clone_state();
        let n = over.inner.num_entries();
        let ghost ks = over.inner.key_seq();
        let ghost overv = over@;
        proof {
            assert(r@ =~= base@.union_prefer_right(prefix_map(overv, ks, 0)));
        }
        let mut i: usize = 0;
        while i < n
            invariant
                i <= n,
                n == ks.len(),
                ks == over.inner.key_seq(),
                overv == over@,
                forall|a: int| 0 <= a < ks.len()
                    ==> over.inner@.contains_key(#[trigger] ks[a]),
                forall|k: Seq<char>| over.inner@.contains_key(k) ==> ks.contains(k),
                r@ == base@.union_prefer_right(prefix_map(overv, ks, i as int)),
            decreases n - i,
        {
            let key = over.inner.key_at(i);
            let val = over.inner.value_at(i);
            proof {
                assert(over@.contains_key(ks[i as int]));
                assert(over@[ks[i as int]] == val.dv());
            }
            r.insert(key.clone(), clone_value(val));
            proof {
                let sub0 = ks.subrange(0, i as int);
                let sub1 = ks.subrange(0, i as int + 1);
                assert(sub1[i as int] == ks[i as int]);
                assert forall|k: Seq<char>| #[trigger] sub1.contains(k)
                    implies k == ks[i as int] || sub0.contains(k) by {
                    let j = choose|j: int| 0 <= j < sub1.len() && sub1[j] == k;
                    if j < i as int {
                        assert(sub0[j] == k);
                    }
                }
                assert forall|k: Seq<char>| #[trigger] sub0.contains(k)
                    implies sub1.contains(k) by {
                    let j = choose|j: int| 0 <= j < sub0.len() && sub0[j] == k;
                    assert(sub1[j] == k);
                }
                assert(r@ =~= base@.union_prefer_right(prefix_map(overv, ks, i as int + 1)));
            }
            i = i + 1;
        }
        proof {
            let subn = ks.subrange(0, n as int);
            assert(subn =~= ks);
            assert forall|k: Seq<char>| overv.contains_key(k)
                implies prefix_map(overv, ks, n as int).contains_key(k) by {
                assert(over.inner@.contains_key(k));
                assert(ks.contains(k));
            }
            assert forall|k: Seq<char>| #[trigger] ks.contains(k)
                implies overv.contains_key(k) by {
                let j = choose|j: int| 0 <= j < ks.len() && ks[j] == k;
                assert(over.inner@.contains_key(ks[j]));
            }
            assert(prefix_map(overv, ks, n as int) =~= overv);
            assert(r@ =~= base@.union_prefer_right(over@));
        }
        r
    }
}

impl Clone for State {
    fn clone(&self) -> (r: Self)
        ensures
            r@ == self@,
    {
        self.clone_state()
    }
}

} // verus!
