use vstd::prelude::*;

verus! {

/// Compares two string slices by value.
pub fn str_eq(a: &str, b: &String) -> (r: bool)
    ensures
        r == (a@ == b@),
{
    let ao: String = a.to_owned();
    ao == *b
}

pub(crate) open spec fn seq_has_key<T>(s: Seq<(String, T)>, k: Seq<char>) -> bool {
    exists|i: int| 0 <= i < s.len() && s[i].0@ == k
}

pub(crate) open spec fn seq_key_idx<T>(s: Seq<(String, T)>, k: Seq<char>) -> int {
    choose|i: int| 0 <= i < s.len() && s[i].0@ == k
}

pub(crate) open spec fn seq_keys_unique<T>(s: Seq<(String, T)>) -> bool {
    forall|i: int, j: int| 0 <= i < j < s.len() ==> s[i].0@ != s[j].0@
}

/// The set of (viewed) keys bound by an entry sequence.
pub(crate) open spec fn keys_of<T>(s: Seq<(String, T)>) -> Set<Seq<char>>
    decreases s.len(),
{
    if s.len() == 0 {
        Set::empty()
    } else {
        keys_of(s.drop_last()).insert(s.last().0@)
    }
}

pub(crate) proof fn lemma_keys_of<T>(s: Seq<(String, T)>)
    ensures
        keys_of(s).finite(),
        forall|k: Seq<char>| keys_of(s).contains(k) <==> seq_has_key(s, k),
    decreases s.len(),
{
    if s.len() > 0 {
        let prefix = s.drop_last();
        lemma_keys_of(prefix);
        assert forall|k: Seq<char>| seq_has_key(s, k) implies keys_of(s).contains(k) by {
            let i = choose|i: int| 0 <= i < s.len() && s[i].0@ == k;
            if i == s.len() - 1 {
                assert(k == s.last().0@);
            } else {
                assert(prefix[i].0@ == k);
                assert(seq_has_key(prefix, k));
                assert(keys_of(prefix).contains(k));
            }
        }
        assert forall|k: Seq<char>| keys_of(s).contains(k) implies seq_has_key(s, k) by {
            if k == s.last().0@ {
                assert(s[s.len() - 1].0@ == k);
                assert(seq_has_key(s, k));
            } else {
                assert(keys_of(prefix).contains(k));
                assert(seq_has_key(prefix, k));
                let i = choose|i: int| 0 <= i < prefix.len() && prefix[i].0@ == k;
                assert(s[i].0@ == prefix[i].0@);
                assert(seq_has_key(s, k));
            }
        }
    }
}

pub(crate) proof fn lemma_keys_of_len<T>(s: Seq<(String, T)>)
    requires
        seq_keys_unique(s),
    ensures
        keys_of(s).len() == s.len(),
    decreases s.len(),
{
    lemma_keys_of(s);
    if s.len() > 0 {
        let prefix = s.drop_last();
        assert(seq_keys_unique(prefix));
        lemma_keys_of_len(prefix);
        lemma_keys_of(prefix);
        assert(!seq_has_key(prefix, s.last().0@));
        assert(!keys_of(prefix).contains(s.last().0@));
    }
}

/// A string-keyed finite map, stored as a vector of entries whose keys are
/// pairwise distinct. Its view is the mathematical map from key characters
/// to stored values.
#[derive(Debug)]
pub struct StrMap<T> {
    entries: Vec<(String, T)>,
}

impl<T> StrMap<T> {
    #[verifier::type_invariant]
    spec fn inv(self) -> bool {
        seq_keys_unique(self.entries@)
    }

    pub closed spec fn view(&self) -> Map<Seq<char>, T> {
        Map::new(
            |k: Seq<char>| seq_has_key(self.entries@, k),
            |k: Seq<char>| self.entries@[seq_key_idx(self.entries@, k)].1,
        )
    }

    /// The keys in storage order; distinct, and together exactly the domain
    /// of the map.
    pub closed spec fn key_seq(&self) -> Seq<Seq<char>> {
        Seq::new(self.entries@.len(), |i: int| self.entries@[i].0@)
    }

    pub fn new() -> (r: Self)
        ensures
            r@ == Map::<Seq<char>, T>::empty(),
    {
        let r = StrMap { entries: Vec::new() };
        proof {
            assert(r@ =~= Map::<Seq<char>, T>::empty());
        }
        r
    }

    pub fn len(&self) -> (r: usize)
        ensures
            r == self@.dom().len(),
            r == self.key_seq().len(),
    {
        proof {
            use_type_invariant(self);
            lemma_keys_of(self.entries@);
            lemma_keys_of_len(self.entries@);
            assert(self@.dom() =~= keys_of(self.entries@));
        }
        self.entries.len()
    }

    pub fn is_empty(&self) -> (r: bool)
        ensures
            r == (self@ == Map::<Seq<char>, T>::empty()),
            !r ==> exists|k: Seq<char>| self@.contains_key(k),
    {
        let n = self.entries.len();
        proof {
            if n == 0 {
                assert(self@ =~= Map::<Seq<char>, T>::empty());
            } else {
                assert(seq_has_key(self.entries@, self.entries@[0].0@));
                assert(self@.contains_key(self.entries@[0].0@));
            }
        }
        n == 0
    }

    pub fn contains_key(&self, key: &str) -> (r: bool)
        ensures
            r == self@.contains_key(key@),
    {
        let mut i: usize = 0;
        while i < self.entries.len()
            invariant
                i <= self.entries@.len(),
                forall|j: int| 0 <= j < i as int ==> self.entries@[j].0@ != key@,
            decreases self.entries@.len() - i,
        {
            if str_eq(key, &self.entries[i].0) {
                proof {
                    assert(seq_has_key(self.entries@, key@));
                }
                return true;
            }
            i = i + 1;
        }
        false
    }

    pub fn get(&self, key: &str) -> (r: Option<&T>)
        ensures
            match r {
                Some(v) => self@.contains_key(key@) && *v == self@[key@],
                None => !self@.contains_key(key@),
            },
    {
        proof {
            use_type_invariant(self);
        }
        let mut i: usize = 0;
        while i < self.entries.len()
            invariant
                i <= self.entries@.len(),
                seq_keys_unique(self.entries@),
                forall|j: int| 0 <= j < i as int ==> self.entries@[j].0@ != key@,
            decreases self.entries@.len() - i,
        {
            if str_eq(key, &self.entries[i].0) {
                proof {
                    assert(seq_has_key(self.entries@, key@));
                    let w = seq_key_idx(self.entries@, key@);
                    assert(w == i as int);
                }
                return Some(&self.entries[i].1);
            }
            i = i + 1;
        }
        None
    }

    /// Binds `key` to `value`; an existing binding under the same key is
    /// replaced, and nothing else changes.
    pub fn insert(&mut self, key: String, value: T)
        ensures
            final(self)@ == old(self)@.insert(key@, value),
            final(self).key_seq().contains(key@),
    {
        proof {
            use_type_invariant(&*self);
        }
        let mut es: Vec<(String, T)> = Vec::new();
        core::mem::swap(&mut es, &mut self.entries);
        let ghost s0 = es@;
        let mut i: usize = 0;
        let mut found: bool = false;
        while i < es.len() && !found
            invariant
                i <= es@.len(),
                es@ == s0,
                !found ==> forall|j: int| 0 <= j < i as int ==> es@[j].0@ != key@,
                found ==> i < es@.len() && es@[i as int].0@ == key@,
            decreases es@.len() - i, (if found { 0int } else { 1int }),
        {
            if str_eq(key.as_str(), &es[i].0) {
                found = true;
            } else {
                i = i + 1;
            }
        }
        if found {
            es.remove(i);
        }
        let ghost s1 = es@;
        es.push((key, value));
        proof {
            let s2 = es@;
            // keys of s1 are those of s0 except possibly key@
            assert(seq_keys_unique(s1) && !seq_has_key(s1, key@)
                && (forall|k: Seq<char>| k != key@
                        ==> (seq_has_key(s1, k) <==> seq_has_key(s0, k)))
                && (forall|k: Seq<char>| k != key@ && seq_has_key(s1, k)
                        ==> s1[seq_key_idx(s1, k)].1 == s0[seq_key_idx(s0, k)].1)) by {
                if found {
                    let fi = i as int;
                    assert forall|k: Seq<char>| k != key@ && seq_has_key(s0, k)
                        implies seq_has_key(s1, k) by {
                        let w = seq_key_idx(s0, k);
                        if w < fi {
                            assert(s1[w].0@ == k);
                        } else {
                            assert(s1[w - 1].0@ == k);
                        }
                    }
                    assert forall|k: Seq<char>| seq_has_key(s1, k) && k != key@
                        implies seq_has_key(s0, k) by {
                        let w = seq_key_idx(s1, k);
                        if w < fi {
                            assert(s0[w].0@ == k);
                        } else {
                            assert(s0[w + 1].0@ == k);
                        }
                    }
                    if seq_has_key(s1, key@) {
                        let w = seq_key_idx(s1, key@);
                        if w < fi {
                            assert(s0[w].0@ == key@);
                            assert(false);
                        } else {
                            assert(s0[w + 1].0@ == key@);
                            assert(false);
                        }
                    }
                    assert forall|k: Seq<char>| k != key@ && seq_has_key(s1, k)
                        implies s1[seq_key_idx(s1, k)].1 == s0[seq_key_idx(s0, k)].1 by {
                        let w1 = seq_key_idx(s1, k);
                        let w0 = seq_key_idx(s0, k);
                        if w1 < fi {
                            assert(s0[w1].0@ == k);
                            assert(w0 == w1);
                        } else {
                            assert(s0[w1 + 1].0@ == k);
                            assert(w0 == w1 + 1);
                        }
                    }
                }
            }
            // now relate s2 == s1.push((key, value)) to the map insert
            assert forall|k: Seq<char>| k != key@
                implies (seq_has_key(s2, k) <==> seq_has_key(s1, k)) by {
                if seq_has_key(s2, k) {
                    let w = seq_key_idx(s2, k);
                    assert(w < s1.len());
                    assert(s1[w].0@ == k);
                }
                if seq_has_key(s1, k) {
                    let w = seq_key_idx(s1, k);
                    assert(s2[w].0@ == k);
                }
            }
            assert(s2[s1.len() as int].0@ == key@);
            assert(seq_has_key(s2, key@));
            assert(seq_keys_unique(s2));
            assert forall|k: Seq<char>| seq_has_key(s2, k) implies
                s2[seq_key_idx(s2, k)].1 == old(self)@.insert(key@, value)[k] by {
                let w = seq_key_idx(s2, k);
                if k == key@ {
                    assert(w == s1.len());
                } else {
                    assert(w < s1.len());
                    assert(s1[w].0@ == k);
                    let w1 = seq_key_idx(s1, k);
                    assert(w1 == w);
                    assert(seq_has_key(s0, k));
                }
            }
        }
        core::mem::swap(&mut es, &mut self.entries);
        proof {
            assert(self@ =~= old(self)@.insert(key@, value));
            assert(self.key_seq()[s1.len() as int] == key@);
        }
    }

    /// Number of stored entries, indexable by `key_at` / `value_at`. Its
    /// contract also publishes that the key sequence lists each key once and
    /// covers exactly the domain of the map.
    pub fn num_entries(&self) -> (r: usize)
        ensures
            r == self.key_seq().len(),
            forall|i: int, j: int| 0 <= i < j < self.key_seq().len()
                ==> self.key_seq()[i] != self.key_seq()[j],
            forall|i: int| 0 <= i < self.key_seq().len()
                ==> self@.contains_key(#[trigger] self.key_seq()[i]),
            forall|k: Seq<char>| self@.contains_key(k) ==> self.key_seq().contains(k),
    {
        proof {
            use_type_invariant(self);
            assert forall|k: Seq<char>| self@.contains_key(k)
                implies self.key_seq().contains(k) by {
                let i = seq_key_idx(self.entries@, k);
                assert(self.key_seq()[i] == k);
            }
        }
        self.entries.len()
    }

    pub fn key_at(&self, i: usize) -> (r: &String)
        requires
            i < self.key_seq().len(),
        ensures
            r@ == self.key_seq()[i as int],
    {
        &self.entries[i].0
    }

    pub fn value_at(&self, i: usize) -> (r: &T)
        requires
            i < self.key_seq().len(),
        ensures
            self@.contains_key(self.key_seq()[i as int]),
            *r == self@[self.key_seq()[i as int]],
    {
        proof {
            use_type_invariant(self);
            assert(seq_has_key(self.entries@, self.entries@[i as int].0@));
            let w = seq_key_idx(self.entries@, self.entries@[i as int].0@);
            assert(w == i as int);
        }
        &self.entries[i].1
    }
}

} // verus!
