//! A map from names to values, kept as a vector of entries whose names are
//! pairwise distinct; its view is the finite map from each name to the view
//! of its value.
use vstd::prelude::*;

verus! {

/// A value that can be copied into an equal one.
pub trait Duplicate: View + Sized {
    /// An independent value with the same view.
    fn duplicate(&self) -> (r: Self)
        ensures
            r@ == self@,
    ;
}

/// No two entries share a key.
pub open spec fn unique_keys<K, W>(p: Seq<(K, W)>) -> bool {
    forall|i: int, j: int| 0 <= i < p.len() && 0 <= j < p.len() && i != j ==> p[i].0 != p[j].0
}

/// The map that a sequence of (key, value) entries stands for.
pub open spec fn pairs_map<K, W>(p: Seq<(K, W)>) -> Map<K, W> {
    Map::new(
        |k: K| exists|i: int| 0 <= i < p.len() && p[i].0 == k,
        |k: K| p[choose|i: int| 0 <= i < p.len() && p[i].0 == k].1,
    )
}

/// Each entry of a sequence with distinct keys is in its map.
pub proof fn lemma_pairs_map_entry<K, W>(p: Seq<(K, W)>, i: int)
    requires
        unique_keys(p),
        0 <= i < p.len(),
    ensures
        pairs_map(p).dom().contains(p[i].0),
        pairs_map(p)[p[i].0] == p[i].1,
{
    let k = p[i].0;
    assert(exists|j: int| 0 <= j < p.len() && p[j].0 == k);
    let j = choose|j: int| 0 <= j < p.len() && p[j].0 == k;
    assert(j == i);
}

/// A key that no entry holds is not in the map.
pub proof fn lemma_pairs_map_absent<K, W>(p: Seq<(K, W)>, k: K)
    requires
        forall|i: int| 0 <= i < p.len() ==> p[i].0 != k,
    ensures
        !pairs_map(p).dom().contains(k),
{
}

proof fn lemma_pairs_map_update<K, W>(p: Seq<(K, W)>, i: int, v: W)
    requires
        unique_keys(p),
        0 <= i < p.len(),
    ensures
        unique_keys(p.update(i, (p[i].0, v))),
        pairs_map(p.update(i, (p[i].0, v))) == pairs_map(p).insert(p[i].0, v),
{
    let k = p[i].0;
    let q = p.update(i, (k, v));
    assert forall|a: int, b: int| 0 <= a < q.len() && 0 <= b < q.len() && a != b implies q[a].0 != q[b].0 by {
        assert(q[a].0 == p[a].0);
        assert(q[b].0 == p[b].0);
    }
    assert forall|key: K| #[trigger] pairs_map(q).dom().contains(key) == pairs_map(p).insert(k, v).dom().contains(key) by {
        if pairs_map(q).dom().contains(key) {
            let j = choose|j: int| 0 <= j < q.len() && q[j].0 == key;
            assert(p[j].0 == key);
        }
        if pairs_map(p).dom().contains(key) {
            let j = choose|j: int| 0 <= j < p.len() && p[j].0 == key;
            assert(q[j].0 == key);
        }
        if key == k {
            assert(q[i].0 == key);
        }
    }
    assert forall|key: K| #[trigger] pairs_map(q).dom().contains(key) implies pairs_map(q)[key] == pairs_map(p).insert(k, v)[key] by {
        let j = choose|j: int| 0 <= j < q.len() && q[j].0 == key;
        lemma_pairs_map_entry(q, j);
        if j != i {
            assert(p[j] == q[j]);
            lemma_pairs_map_entry(p, j);
        }
    }
    assert(pairs_map(q) =~= pairs_map(p).insert(k, v));
}

proof fn lemma_pairs_map_push<K, W>(p: Seq<(K, W)>, k: K, v: W)
    requires
        unique_keys(p),
        forall|i: int| 0 <= i < p.len() ==> p[i].0 != k,
    ensures
        unique_keys(p.push((k, v))),
        pairs_map(p.push((k, v))) == pairs_map(p).insert(k, v),
{
    let q = p.push((k, v));
    assert forall|a: int, b: int| 0 <= a < q.len() && 0 <= b < q.len() && a != b implies q[a].0 != q[b].0 by {
    }
    assert forall|key: K| #[trigger] pairs_map(q).dom().contains(key) == pairs_map(p).insert(k, v).dom().contains(key) by {
        if pairs_map(q).dom().contains(key) {
            let j = choose|j: int| 0 <= j < q.len() && q[j].0 == key;
            if j < p.len() {
                assert(p[j].0 == key);
            }
        }
        if pairs_map(p).dom().contains(key) {
            let j = choose|j: int| 0 <= j < p.len() && p[j].0 == key;
            assert(q[j].0 == key);
        }
        if key == k {
            assert(q[p.len() as int].0 == key);
        }
    }
    assert forall|key: K| #[trigger] pairs_map(q).dom().contains(key) implies pairs_map(q)[key] == pairs_map(p).insert(k, v)[key] by {
        let j = choose|j: int| 0 <= j < q.len() && q[j].0 == key;
        lemma_pairs_map_entry(q, j);
        if j < p.len() {
            assert(p[j] == q[j]);
            lemma_pairs_map_entry(p, j);
        }
    }
    assert(pairs_map(q) =~= pairs_map(p).insert(k, v));
}

proof fn lemma_pairs_map_remove<K, W>(p: Seq<(K, W)>, i: int)
    requires
        unique_keys(p),
        0 <= i < p.len(),
    ensures
        unique_keys(p.remove(i)),
        pairs_map(p.remove(i)) == pairs_map(p).remove(p[i].0),
{
    let k = p[i].0;
    let q = p.remove(i);
    assert forall|a: int| 0 <= a < q.len() implies #[trigger] q[a] == (if a < i { p[a] } else { p[a + 1] }) by {
    }
    assert forall|a: int, b: int| 0 <= a < q.len() && 0 <= b < q.len() && a != b implies q[a].0 != q[b].0 by {
        let pa = if a < i { a } else { a + 1 };
        let pb = if b < i { b } else { b + 1 };
        assert(q[a] == p[pa]);
        assert(q[b] == p[pb]);
    }
    assert forall|key: K| #[trigger] pairs_map(q).dom().contains(key) == pairs_map(p).remove(k).dom().contains(key) by {
        if pairs_map(q).dom().contains(key) {
            let j = choose|j: int| 0 <= j < q.len() && q[j].0 == key;
            let pj = if j < i { j } else { j + 1 };
            assert(q[j] == p[pj]);
            assert(p[pj].0 == key);
            assert(key != k);
        }
        if pairs_map(p).dom().contains(key) && key != k {
            let j = choose|j: int| 0 <= j < p.len() && p[j].0 == key;
            assert(j != i);
            let qj = if j < i { j } else { j - 1 };
            assert(q[qj] == p[j]);
        }
    }
    assert forall|key: K| #[trigger] pairs_map(q).dom().contains(key) implies pairs_map(q)[key] == pairs_map(p).remove(k)[key] by {
        let j = choose|j: int| 0 <= j < q.len() && q[j].0 == key;
        lemma_pairs_map_entry(q, j);
        let pj = if j < i { j } else { j + 1 };
        assert(q[j] == p[pj]);
        lemma_pairs_map_entry(p, pj);
    }
    assert(pairs_map(q) =~= pairs_map(p).remove(k));
}

/// A map from names to values, as `HashMap<String, V>` is used for profiles.
pub struct NamedMap<V: View> {
    entries: Vec<(String, V)>,
}

impl<V: View> NamedMap<V> {
    /// The entries, each name by its characters and each value by its view,
    /// in the order in which they are stored.
    pub closed spec fn pairs(&self) -> Seq<(Seq<char>, V::V)> {
        self.entries@.map_values(|e: (String, V)| (e.0@, e.1@))
    }

    #[verifier::type_invariant]
    closed spec fn keys_distinct(&self) -> bool {
        unique_keys(self.pairs())
    }

    /// An empty map.
    pub fn new() -> (m: Self)
        ensures
            m@ == Map::<Seq<char>, V::V>::empty(),
            m.pairs() == Seq::<(Seq<char>, V::V)>::empty(),
    {
        let m = NamedMap { entries: Vec::new() };
        assert(m.pairs() =~= Seq::<(Seq<char>, V::V)>::empty());
        assert(m@ =~= Map::<Seq<char>, V::V>::empty());
        m
    }

    /// The stored entries, in order.
    pub fn entries(&self) -> (r: &Vec<(String, V)>)
        ensures
            r@.map_values(|e: (String, V)| (e.0@, e.1@)) == self.pairs(),
    {
        &self.entries
    }

    /// The position of the entry named `key`, if there is one.
    fn position(&self, key: &String) -> (r: Option<usize>)
        ensures
            match r {
                Some(i) => i < self.pairs().len() && self.pairs()[i as int].0 == key@,
                None => forall|i: int| 0 <= i < self.pairs().len() ==> self.pairs()[i].0 != key@,
            },
    {
        let mut i: usize = 0;
        while i < self.entries.len()
            invariant
                i <= self.entries@.len(),
                forall|j: int| 0 <= j < i ==> self.pairs()[j].0 != key@,
            decreases self.entries@.len() - i,
        {
            if self.entries[i].0 == *key {
                return Some(i);
            }
            i = i + 1;
        }
        None
    }

    /// The value named `key`, if there is one (`HashMap::get`).
    pub fn get(&self, key: &String) -> (r: Option<&V>)
        ensures
            match r {
                Some(v) => self@.dom().contains(key@) && self@[key@] == v@,
                None => !self@.dom().contains(key@),
            },
    {
        proof {
            use_type_invariant(self);
        }
        match self.position(key) {
            Some(i) => {
                proof {
                    lemma_pairs_map_entry(self.pairs(), i as int);
                }
                Some(&self.entries[i].1)
            },
            None => {
                proof {
                    lemma_pairs_map_absent(self.pairs(), key@);
                }
                None
            },
        }
    }

    /// Whether a value is named `key` (`HashMap::contains_key`).
    pub fn contains_key(&self, key: &String) -> (b: bool)
        ensures
            b == self@.dom().contains(key@),
    {
        self.get(key).is_some()
    }

    /// Names `value` by `key`, in place of any value that had that name
    /// (`HashMap::insert`).
    pub fn insert(&mut self, key: String, value: V)
        ensures
            final(self)@ == old(self)@.insert(key@, value@),
    {
        proof {
            use_type_invariant(&*self);
        }
        let ghost p = self.pairs();
        match self.position(&key) {
            Some(i) => {
                proof {
                    lemma_pairs_map_update(p, i as int, value@);
                }
                let ghost kv = key@;
                let ghost vv = value@;
                let mut entries: Vec<(String, V)> = Vec::new();
                std::mem::swap(&mut entries, &mut self.entries);
                entries.set(i, (key, value));
                assert(entries@.map_values(|e: (String, V)| (e.0@, e.1@)) =~= p.update(i as int, (kv, vv)));
                self.entries = entries;
                assert(self.pairs() =~= p.update(i as int, (kv, vv)));
            },
            None => {
                proof {
                    lemma_pairs_map_push(p, key@, value@);
                }
                let ghost kv = key@;
                let ghost vv = value@;
                let mut entries: Vec<(String, V)> = Vec::new();
                std::mem::swap(&mut entries, &mut self.entries);
                entries.push((key, value));
                assert(entries@.map_values(|e: (String, V)| (e.0@, e.1@)) =~= p.push((kv, vv)));
                self.entries = entries;
                assert(self.pairs() =~= p.push((kv, vv)));
            },
        }
    }

    /// Drops the value named `key`, if any (`HashMap::remove`).
    pub fn remove(&mut self, key: &String)
        ensures
            final(self)@ == old(self)@.remove(key@),
    {
        proof {
            use_type_invariant(&*self);
        }
        let ghost p = self.pairs();
        match self.position(key) {
            Some(i) => {
                proof {
                    lemma_pairs_map_remove(p, i as int);
                }
                let mut entries: Vec<(String, V)> = Vec::new();
                std::mem::swap(&mut entries, &mut self.entries);
                entries.remove(i);
                assert(entries@.map_values(|e: (String, V)| (e.0@, e.1@)) =~= p.remove(i as int));
                self.entries = entries;
                assert(self.pairs() =~= p.remove(i as int));
            },
            None => {
                proof {
                    lemma_pairs_map_absent(p, key@);
                    assert(p.len() == p.len());
                    assert(pairs_map(p) =~= pairs_map(p).remove(key@));
                }
            },
        }
    }
}

impl<V: View> View for NamedMap<V> {
    type V = Map<Seq<char>, V::V>;

    open spec fn view(&self) -> Map<Seq<char>, V::V> {
        pairs_map(self.pairs())
    }
}

impl<V: Duplicate> Duplicate for NamedMap<V> {
    fn duplicate(&self) -> (r: Self) {
        proof {
            use_type_invariant(self);
        }
        let mut entries: Vec<(String, V)> = Vec::new();
        let mut i: usize = 0;
        while i < self.entries.len()
            invariant
                i <= self.entries@.len(),
                entries@.map_values(|e: (String, V)| (e.0@, e.1@)) == self.pairs().subrange(0, i as int),
            decreases self.entries@.len() - i,
        {
            let k = self.entries[i].0.clone();
            let v = self.entries[i].1.duplicate();
            let ghost before = entries@.map_values(|e: (String, V)| (e.0@, e.1@));
            entries.push((k, v));
            assert(entries@.map_values(|e: (String, V)| (e.0@, e.1@)) =~= before.push(self.pairs()[i as int]));
            assert(self.pairs().subrange(0, i + 1) =~= self.pairs().subrange(0, i as int).push(self.pairs()[i as int]));
            i = i + 1;
        }
        assert(self.pairs().subrange(0, self.entries@.len() as int) =~= self.pairs());
        NamedMap { entries }
    }
}

} // verus!
