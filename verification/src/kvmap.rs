//! Small verified association maps keyed by strings and by string pairs,
//! with `Map` views over character sequences.

use vstd::prelude::*;

use crate::text::str_eq;

verus! {

/// The map that a key column and a value column denote: later entries win.
pub open spec fn kv_map<V>(keys: Seq<String>, vals: Seq<V>) -> Map<Seq<char>, V>
    decreases keys.len(),
{
    if keys.len() == 0 || vals.len() == 0 {
        Map::empty()
    } else {
        kv_map(keys.drop_last(), vals.drop_last()).insert(keys.last()@, vals.last())
    }
}

/// With distinct keys, every row is in the denoted map.
proof fn lemma_kv_get<V>(keys: Seq<String>, vals: Seq<V>, i: int)
    requires
        keys.len() == vals.len(),
        forall|p: int, q: int| 0 <= p < q < keys.len() ==> keys[p]@ != keys[q]@,
        0 <= i < keys.len(),
    ensures
        kv_map(keys, vals).contains_key(keys[i]@),
        kv_map(keys, vals)[keys[i]@] == vals[i],
    decreases keys.len(),
{
    if i < keys.len() - 1 {
        lemma_kv_get(keys.drop_last(), vals.drop_last(), i);
        assert(keys.drop_last()[i] == keys[i]);
        assert(keys[i]@ != keys.last()@);
    }
}

/// A key under none of the rows is not in the denoted map.
proof fn lemma_kv_absent<V>(keys: Seq<String>, vals: Seq<V>, k: Seq<char>)
    requires
        keys.len() == vals.len(),
        forall|p: int| 0 <= p < keys.len() ==> keys[p]@ != k,
    ensures
        !kv_map(keys, vals).contains_key(k),
    decreases keys.len(),
{
    if keys.len() > 0 {
        lemma_kv_absent(keys.drop_last(), vals.drop_last(), k);
    }
}

/// Replacing one row's value updates the denoted map at that row's key.
proof fn lemma_kv_update<V>(keys: Seq<String>, vals: Seq<V>, i: int, v: V)
    requires
        keys.len() == vals.len(),
        forall|p: int, q: int| 0 <= p < q < keys.len() ==> keys[p]@ != keys[q]@,
        0 <= i < keys.len(),
    ensures
        kv_map(keys, vals.update(i, v)) == kv_map(keys, vals).insert(keys[i]@, v),
    decreases keys.len(),
{
    let n = keys.len() as int;
    if i == n - 1 {
        assert(vals.update(i, v).drop_last() =~= vals.drop_last());
        assert(vals.update(i, v).last() == v);
        assert(kv_map(keys, vals.update(i, v)) =~= kv_map(keys, vals).insert(keys[i]@, v));
    } else {
        lemma_kv_update(keys.drop_last(), vals.drop_last(), i, v);
        assert(vals.update(i, v).drop_last() =~= vals.drop_last().update(i, v));
        assert(vals.update(i, v).last() == vals.last());
        assert(keys[i]@ != keys.last()@);
        assert(kv_map(keys, vals.update(i, v)) =~= kv_map(keys, vals).insert(keys[i]@, v));
    }
}

/// An association map from string keys to values.
#[derive(Debug)]
pub struct KeyMap<V> {
    keys: Vec<String>,
    vals: Vec<V>,
}

impl<V> KeyMap<V> {
    /// The keys are distinct and each has a value.
    pub closed spec fn wf(&self) -> bool {
        &&& self.keys@.len() == self.vals@.len()
        &&& forall|p: int, q: int| 0 <= p < q < self.keys@.len() ==> self.keys@[p]@
            != self.keys@[q]@
    }

    /// The map this container denotes.
    pub closed spec fn as_map(&self) -> Map<Seq<char>, V> {
        kv_map(self.keys@, self.vals@)
    }

    /// An empty map.
    pub fn new() -> (r: KeyMap<V>)
        ensures
            r.wf(),
            r.as_map() == Map::<Seq<char>, V>::empty(),
    {
        KeyMap { keys: Vec::new(), vals: Vec::new() }
    }

    /// The position of `k` among the keys, if present.
    fn position(&self, k: &str) -> (r: Option<usize>)
        requires
            self.wf(),
        ensures
            match r {
                Some(i) => i < self.keys@.len() && self.keys@[i as int]@ == k@,
                None => forall|p: int| 0 <= p < self.keys@.len() ==> self.keys@[p]@ != k@,
            },
    {
        let n = self.keys.len();
        let mut i: usize = 0;
        while i < n
            invariant
                i <= n,
                n == self.keys@.len(),
                forall|p: int| 0 <= p < i ==> self.keys@[p]@ != k@,
            decreases n - i,
        {
            if str_eq(self.keys[i].as_str(), k) {
                return Some(i);
            }
            i = i + 1;
        }
        None
    }

    /// Whether `k` is bound.
    pub fn contains(&self, k: &str) -> (r: bool)
        requires
            self.wf(),
        ensures
            r == self.as_map().contains_key(k@),
    {
        let r = self.position(k);
        proof {
            match r {
                Some(i) => lemma_kv_get(self.keys@, self.vals@, i as int),
                None => lemma_kv_absent(self.keys@, self.vals@, k@),
            }
        }
        r.is_some()
    }

    /// The value bound to `k`, if any.
    pub fn get(&self, k: &str) -> (r: Option<&V>)
        requires
            self.wf(),
        ensures
            match r {
                Some(v) => self.as_map().contains_key(k@) && *v == self.as_map()[k@],
                None => !self.as_map().contains_key(k@),
            },
    {
        match self.position(k) {
            Some(i) => {
                proof {
                    lemma_kv_get(self.keys@, self.vals@, i as int);
                }
                Some(&self.vals[i])
            },
            None => {
                proof {
                    lemma_kv_absent(self.keys@, self.vals@, k@);
                }
                None
            },
        }
    }

    /// Binds `k` to `v`, returning the value it replaced, if any.
    pub fn insert(&mut self, k: String, v: V) -> (r: Option<V>)
        requires
            old(self).wf(),
        ensures
            final(self).wf(),
            final(self).as_map() == old(self).as_map().insert(k@, v),
            match r {
                Some(prev) => old(self).as_map().contains_key(k@) && prev == old(
                    self,
                ).as_map().index(k@),
                None => !old(self).as_map().contains_key(k@),
            },
    {
        match self.position(k.as_str()) {
            Some(i) => {
                proof {
                    lemma_kv_get(self.keys@, self.vals@, i as int);
                    lemma_kv_update(self.keys@, self.vals@, i as int, v);
                }
                let ghost vals0 = self.vals@;
                let prev = self.vals.remove(i);
                self.vals.insert(i, v);
                proof {
                    assert(self.vals@ =~= vals0.update(i as int, v));
                }
                Some(prev)
            },
            None => {
                proof {
                    lemma_kv_absent(self.keys@, self.vals@, k@);
                    assert(self.keys@.push(k).drop_last() =~= self.keys@);
                    assert(self.vals@.push(v).drop_last() =~= self.vals@);
                }
                self.keys.push(k);
                self.vals.push(v);
                None
            },
        }
    }
}

/// The view of a pair of strings.
pub open spec fn pair_view(k: (String, String)) -> (Seq<char>, Seq<char>) {
    (k.0@, k.1@)
}

/// The map that a pair-key column and a value column denote.
pub open spec fn pkv_map<V>(keys: Seq<(String, String)>, vals: Seq<V>) -> Map<
    (Seq<char>, Seq<char>),
    V,
>
    decreases keys.len(),
{
    if keys.len() == 0 || vals.len() == 0 {
        Map::empty()
    } else {
        pkv_map(keys.drop_last(), vals.drop_last()).insert(pair_view(keys.last()), vals.last())
    }
}

/// With distinct pair keys, every row is in the denoted map.
proof fn lemma_pkv_get<V>(keys: Seq<(String, String)>, vals: Seq<V>, i: int)
    requires
        keys.len() == vals.len(),
        forall|p: int, q: int| 0 <= p < q < keys.len() ==> pair_view(keys[p]) != pair_view(
            keys[q],
        ),
        0 <= i < keys.len(),
    ensures
        pkv_map(keys, vals).contains_key(pair_view(keys[i])),
        pkv_map(keys, vals)[pair_view(keys[i])] == vals[i],
    decreases keys.len(),
{
    if i < keys.len() - 1 {
        lemma_pkv_get(keys.drop_last(), vals.drop_last(), i);
        assert(keys.drop_last()[i] == keys[i]);
        assert(pair_view(keys[i]) != pair_view(keys.last()));
    }
}

/// A pair key under none of the rows is not in the denoted map.
proof fn lemma_pkv_absent<V>(keys: Seq<(String, String)>, vals: Seq<V>, k: (Seq<char>, Seq<char>))
    requires
        keys.len() == vals.len(),
        forall|p: int| 0 <= p < keys.len() ==> pair_view(keys[p]) != k,
    ensures
        !pkv_map(keys, vals).contains_key(k),
    decreases keys.len(),
{
    if keys.len() > 0 {
        lemma_pkv_absent(keys.drop_last(), vals.drop_last(), k);
    }
}

/// Replacing one row's value updates the denoted map at that row's pair key.
proof fn lemma_pkv_update<V>(keys: Seq<(String, String)>, vals: Seq<V>, i: int, v: V)
    requires
        keys.len() == vals.len(),
        forall|p: int, q: int| 0 <= p < q < keys.len() ==> pair_view(keys[p]) != pair_view(
            keys[q],
        ),
        0 <= i < keys.len(),
    ensures
        pkv_map(keys, vals.update(i, v)) == pkv_map(keys, vals).insert(pair_view(keys[i]), v),
    decreases keys.len(),
{
    let n = keys.len() as int;
    if i == n - 1 {
        assert(vals.update(i, v).drop_last() =~= vals.drop_last());
        assert(vals.update(i, v).last() == v);
        assert(pkv_map(keys, vals.update(i, v)) =~= pkv_map(keys, vals).insert(
            pair_view(keys[i]),
            v,
        ));
    } else {
        lemma_pkv_update(keys.drop_last(), vals.drop_last(), i, v);
        assert(vals.update(i, v).drop_last() =~= vals.drop_last().update(i, v));
        assert(vals.update(i, v).last() == vals.last());
        assert(pair_view(keys[i]) != pair_view(keys.last()));
        assert(pkv_map(keys, vals.update(i, v)) =~= pkv_map(keys, vals).insert(
            pair_view(keys[i]),
            v,
        ));
    }
}

/// An association map from pairs of string keys to values.
#[derive(Debug)]
pub struct PairMap<V> {
    keys: Vec<(String, String)>,
    vals: Vec<V>,
}

impl<V> PairMap<V> {
    /// The pair keys are distinct and each has a value.
    pub closed spec fn wf(&self) -> bool {
        &&& self.keys@.len() == self.vals@.len()
        &&& forall|p: int, q: int| 0 <= p < q < self.keys@.len() ==> pair_view(self.keys@[p])
            != pair_view(self.keys@[q])
    }

    /// The map this container denotes.
    pub closed spec fn as_map(&self) -> Map<(Seq<char>, Seq<char>), V> {
        pkv_map(self.keys@, self.vals@)
    }

    /// An empty map.
    pub fn new() -> (r: PairMap<V>)
        ensures
            r.wf(),
            r.as_map() == Map::<(Seq<char>, Seq<char>), V>::empty(),
    {
        PairMap { keys: Vec::new(), vals: Vec::new() }
    }

    /// The position of `(a, b)` among the pair keys, if present.
    fn position(&self, a: &str, b: &str) -> (r: Option<usize>)
        requires
            self.wf(),
        ensures
            match r {
                Some(i) => i < self.keys@.len() && pair_view(self.keys@[i as int]) == (a@, b@),
                None => forall|p: int| 0 <= p < self.keys@.len() ==> pair_view(self.keys@[p]) != (
                    a@,
                    b@,
                ),
            },
    {
        let n = self.keys.len();
        let mut i: usize = 0;
        while i < n
            invariant
                i <= n,
                n == self.keys@.len(),
                forall|p: int| 0 <= p < i ==> pair_view(self.keys@[p]) != (a@, b@),
            decreases n - i,
        {
            if str_eq(self.keys[i].0.as_str(), a) && str_eq(self.keys[i].1.as_str(), b) {
                return Some(i);
            }
            i = i + 1;
        }
        None
    }

    /// The value bound to `(a, b)`, if any.
    pub fn get(&self, a: &str, b: &str) -> (r: Option<&V>)
        requires
            self.wf(),
        ensures
            match r {
                Some(v) => self.as_map().contains_key((a@, b@)) && *v == self.as_map()[(a@, b@)],
                None => !self.as_map().contains_key((a@, b@)),
            },
    {
        match self.position(a, b) {
            Some(i) => {
                proof {
                    lemma_pkv_get(self.keys@, self.vals@, i as int);
                }
                Some(&self.vals[i])
            },
            None => {
                proof {
                    lemma_pkv_absent(self.keys@, self.vals@, (a@, b@));
                }
                None
            },
        }
    }

    /// Binds `(a, b)` to `v`, returning the value it replaced, if any.
    pub fn insert(&mut self, a: String, b: String, v: V) -> (r: Option<V>)
        requires
            old(self).wf(),
        ensures
            final(self).wf(),
            final(self).as_map() == old(self).as_map().insert((a@, b@), v),
            match r {
                Some(prev) => old(self).as_map().contains_key((a@, b@)) && prev == old(
                    self,
                ).as_map()[(a@, b@)],
                None => !old(self).as_map().contains_key((a@, b@)),
            },
    {
        match self.position(a.as_str(), b.as_str()) {
            Some(i) => {
                proof {
                    lemma_pkv_get(self.keys@, self.vals@, i as int);
                    lemma_pkv_update(self.keys@, self.vals@, i as int, v);
                }
                let ghost vals0 = self.vals@;
                let prev = self.vals.remove(i);
                self.vals.insert(i, v);
                proof {
                    assert(self.vals@ =~= vals0.update(i as int, v));
                }
                Some(prev)
            },
            None => {
                proof {
                    lemma_pkv_absent(self.keys@, self.vals@, (a@, b@));
                    assert(self.keys@.push((a, b)).drop_last() =~= self.keys@);
                    assert(self.vals@.push(v).drop_last() =~= self.vals@);
                }
                self.keys.push((a, b));
                self.vals.push(v);
                None
            },
        }
    }
}

} // verus!
