//! A small map keyed by strings: each key occurs at most once, and the table
//! reads as a `Map` from the key's characters to the stored value.
use vstd::prelude::*;
use crate::text::{str_eq, string_views};

verus! {

/// The characters of each key.
pub open spec fn key_views<V>(pairs: Seq<(String, V)>) -> Seq<Seq<char>> {
    pairs.map_values(|p: (String, V)| p.0@)
}

/// Entries keyed by string; a key occurs at most once.
#[derive(Clone, Debug)]
pub struct Table<V> {
    entries: Vec<(String, V)>,
}

impl<V> Table<V> {
    /// The stored pairs, in insertion order.
    pub closed spec fn pairs(&self) -> Seq<(String, V)> {
        self.entries@
    }

    /// No key occurs twice.
    pub open spec fn wf(&self) -> bool {
        forall|i: int, j: int|
            0 <= i < self.pairs().len() && 0 <= j < self.pairs().len() && i != j
                ==> #[trigger] self.pairs()[i].0@ != #[trigger] self.pairs()[j].0@
    }

    /// Whether some entry has key `k`.
    pub open spec fn has(&self, k: Seq<char>) -> bool {
        exists|i: int| 0 <= i < self.pairs().len() && #[trigger] self.pairs()[i].0@ == k
    }

    /// The position of key `k`, where it occurs.
    pub open spec fn index_of(&self, k: Seq<char>) -> int {
        choose|i: int| 0 <= i < self.pairs().len() && #[trigger] self.pairs()[i].0@ == k
    }

    /// The table as a map from key characters to values.
    pub open spec fn as_map(&self) -> Map<Seq<char>, V> {
        Map::new(|k: Seq<char>| self.has(k), |k: Seq<char>| self.pairs()[self.index_of(k)].1)
    }

    /// The empty table.
    pub fn new() -> (t: Self)
        ensures
            t.wf(),
            t.as_map() == Map::<Seq<char>, V>::empty(),
            t.pairs().len() == 0,
    {
        let t = Table { entries: Vec::new() };
        assert(t.as_map() =~= Map::<Seq<char>, V>::empty());
        t
    }

    /// Number of keys.
    pub fn len(&self) -> (n: usize)
        requires
            self.wf(),
        ensures
            n == self.pairs().len(),
            n == self.as_map().dom().len(),
    {
        proof {
            self.lemma_dom_len();
        }
        self.entries.len()
    }

    /// The stored pairs, in insertion order.
    pub fn entries(&self) -> (r: &Vec<(String, V)>)
        ensures
            r@ == self.pairs(),
    {
        &self.entries
    }

    proof fn lemma_index_unique(&self, i: int)
        requires
            self.wf(),
            0 <= i < self.pairs().len(),
        ensures
            self.has(self.pairs()[i].0@),
            self.index_of(self.pairs()[i].0@) == i,
    {
        let k = self.pairs()[i].0@;
        assert(self.pairs()[i].0@ == k);
        let j = self.index_of(k);
        assert(self.pairs()[j].0@ == k);
    }

    proof fn lemma_dom_len(&self)
        requires
            self.wf(),
        ensures
            self.as_map().dom().len() == self.pairs().len(),
        decreases self.pairs().len(),
    {
        let keys = key_views(self.pairs());
        assert forall|k: Seq<char>| #[trigger] self.as_map().dom().contains(k) <==> keys.to_set().contains(k) by {
            if self.has(k) {
                let i = choose|i: int| 0 <= i < self.pairs().len() && #[trigger] self.pairs()[i].0@ == k;
                assert(keys[i] == k);
            }
            if keys.contains(k) {
                let i = choose|i: int| 0 <= i < keys.len() && keys[i] == k;
                assert(self.pairs()[i].0@ == k);
            }
        }
        assert(self.as_map().dom() =~= keys.to_set());
        assert forall|i: int, j: int| 0 <= i < keys.len() && 0 <= j < keys.len() && i != j
            implies keys[i] != keys[j] by {
            assert(self.pairs()[i].0@ != self.pairs()[j].0@);
        }
        assert(keys.no_duplicates());
        keys.unique_seq_to_set();
    }

    /// Position of the entry with key `k`, if there is one.
    fn find(&self, k: &str) -> (r: Option<usize>)
        requires
            self.wf(),
        ensures
            match r {
                Some(i) => i < self.pairs().len() && self.pairs()[i as int].0@ == k@
                    && self.index_of(k@) == i,
                None => !self.has(k@),
            },
    {
        let mut i: usize = 0;
        while i < self.entries.len()
            invariant
                self.wf(),
                i <= self.entries@.len(),
                self.entries@ == self.pairs(),
                forall|j: int| 0 <= j < i ==> #[trigger] self.pairs()[j].0@ != k@,
            decreases self.entries@.len() - i,
        {
            if str_eq(self.entries[i].0.as_str(), k) {
                proof {
                    self.lemma_index_unique(i as int);
                }
                return Some(i);
            }
            i += 1;
        }
        None
    }

    /// The value stored under `k`.
    pub fn get(&self, k: &str) -> (r: Option<&V>)
        requires
            self.wf(),
        ensures
            match r {
                Some(v) => self.as_map().dom().contains(k@) && *v == self.as_map()[k@],
                None => !self.as_map().dom().contains(k@),
            },
    {
        match self.find(k) {
            Some(i) => Some(&self.entries[i].1),
            None => None,
        }
    }

    /// Store `v` under `k`, replacing what was there.
    pub fn insert(&mut self, k: String, v: V)
        requires
            old(self).wf(),
        ensures
            final(self).wf(),
            final(self).as_map() == old(self).as_map().insert(k@, v),
    {
        let ghost kv = k@;
        let ghost before = self.pairs();
        match self.find(k.as_str()) {
            Some(i) => {
                self.entries.set(i, (k, v));
                proof {
                    let after = self.pairs();
                    assert(after == before.update(i as int, after[i as int]));
                    assert forall|a: int, b: int|
                        0 <= a < after.len() && 0 <= b < after.len() && a != b
                        implies #[trigger] after[a].0@ != #[trigger] after[b].0@ by {
                        if a != i && b != i {
                            assert(before[a].0@ != before[b].0@);
                        } else if a == i {
                            assert(before[b].0@ != before[i as int].0@);
                        } else {
                            assert(before[a].0@ != before[i as int].0@);
                        }
                    }
                    assert forall|key: Seq<char>| #![auto]
                        self.has(key) == old(self).as_map().insert(kv, v).dom().contains(key) by {
                        if self.has(key) {
                            let j = choose|j: int| 0 <= j < after.len() && after[j].0@ == key;
                            if j != i {
                                assert(before[j].0@ == key);
                            }
                        }
                        if old(self).has(key) {
                            let j = choose|j: int| 0 <= j < before.len() && before[j].0@ == key;
                            if j != i {
                                assert(after[j].0@ == key);
                            }
                        }
                        if key == kv {
                            assert(after[i as int].0@ == key);
                        }
                    }
                    assert forall|key: Seq<char>| #[trigger] self.has(key) implies
                        self.as_map()[key] == old(self).as_map().insert(kv, v)[key] by {
                        let j = self.index_of(key);
                        self.lemma_index_unique(j);
                        if j == i {
                            assert(key == kv);
                        } else {
                            assert(before[j].0@ == key);
                            old(self).lemma_index_unique(j);
                            assert(key != kv);
                        }
                    }
                    assert(self.as_map() =~= old(self).as_map().insert(kv, v));
                }
            },
            None => {
                self.entries.push((k, v));
                proof {
                    let after = self.pairs();
                    let n = before.len() as int;
                    assert(after == before.push(after[n]));
                    assert forall|a: int, b: int|
                        0 <= a < after.len() && 0 <= b < after.len() && a != b
                        implies #[trigger] after[a].0@ != #[trigger] after[b].0@ by {
                        if a != n && b != n {
                            assert(before[a].0@ != before[b].0@);
                        } else if a == n {
                            assert(before[b].0@ != kv);
                        } else {
                            assert(before[a].0@ != kv);
                        }
                    }
                    assert forall|key: Seq<char>| #![auto]
                        self.has(key) == old(self).as_map().insert(kv, v).dom().contains(key) by {
                        if self.has(key) {
                            let j = choose|j: int| 0 <= j < after.len() && after[j].0@ == key;
                            if j != n {
                                assert(before[j].0@ == key);
                            }
                        }
                        if old(self).has(key) {
                            let j = choose|j: int| 0 <= j < before.len() && before[j].0@ == key;
                            assert(after[j].0@ == key);
                        }
                        if key == kv {
                            assert(after[n].0@ == key);
                        }
                    }
                    assert forall|key: Seq<char>| #[trigger] self.has(key) implies
                        self.as_map()[key] == old(self).as_map().insert(kv, v)[key] by {
                        let j = self.index_of(key);
                        self.lemma_index_unique(j);
                        if j == n {
                            assert(key == kv);
                        } else {
                            assert(before[j].0@ == key);
                            old(self).lemma_index_unique(j);
                            assert(key != kv);
                        }
                    }
                    assert(self.as_map() =~= old(self).as_map().insert(kv, v));
                }
            },
        }
    }

    /// Drop the entry with key `k`, if there is one.
    pub fn remove(&mut self, k: &str)
        requires
            old(self).wf(),
        ensures
            final(self).wf(),
            final(self).as_map() == old(self).as_map().remove(k@),
    {
        let ghost before = self.pairs();
        match self.find(k) {
            Some(i) => {
                self.entries.remove(i);
                proof {
                    let after = self.pairs();
                    assert(after == before.remove(i as int));
                    assert forall|a: int, b: int|
                        0 <= a < after.len() && 0 <= b < after.len() && a != b
                        implies #[trigger] after[a].0@ != #[trigger] after[b].0@ by {
                        let a0 = if a < i { a } else { a + 1 };
                        let b0 = if b < i { b } else { b + 1 };
                        assert(after[a] == before[a0]);
                        assert(after[b] == before[b0]);
                        assert(before[a0].0@ != before[b0].0@);
                    }
                    assert forall|key: Seq<char>| #![auto]
                        self.has(key) == old(self).as_map().remove(k@).dom().contains(key) by {
                        if self.has(key) {
                            let j = choose|j: int| 0 <= j < after.len() && after[j].0@ == key;
                            let j0 = if j < i { j } else { j + 1 };
                            assert(before[j0].0@ == key);
                            assert(j0 != i);
                            assert(before[i as int].0@ != key);
                        }
                        if old(self).has(key) && key != k@ {
                            let j = choose|j: int| 0 <= j < before.len() && before[j].0@ == key;
                            assert(j != i);
                            let j1 = if j < i { j } else { j - 1 };
                            assert(after[j1].0@ == key);
                        }
                    }
                    assert forall|key: Seq<char>| #[trigger] self.has(key) implies
                        self.as_map()[key] == old(self).as_map().remove(k@)[key] by {
                        let j = self.index_of(key);
                        self.lemma_index_unique(j);
                        let j0 = if j < i { j } else { j + 1 };
                        assert(before[j0] == after[j]);
                        old(self).lemma_index_unique(j0);
                    }
                    assert(self.as_map() =~= old(self).as_map().remove(k@));
                }
            },
            None => {
                assert(self.as_map() =~= old(self).as_map().remove(k@));
            },
        }
    }

    /// The keys, in insertion order.
    pub fn keys(&self) -> (r: Vec<String>)
        ensures
            string_views(r@) == key_views(self.pairs()),
    {
        let mut r: Vec<String> = Vec::new();
        let mut i: usize = 0;
        while i < self.entries.len()
            invariant
                i <= self.entries@.len(),
                self.entries@ == self.pairs(),
                r@.len() == i,
                string_views(r@) == key_views(self.pairs().take(i as int)),
            decreases self.entries@.len() - i,
        {
            let ghost before = r@;
            let key = self.entries[i].0.clone();
            assert(key@ == self.pairs()[i as int].0@);
            r.push(key);
            assert forall|j: int| 0 <= j < i + 1 implies #[trigger] string_views(r@)[j] == key_views(self.pairs().take(i + 1))[j] by {
                if j < i {
                    assert(r@[j] == before[j]);
                    assert(string_views(before)[j] == key_views(self.pairs().take(i as int))[j]);
                }
            }
            assert(string_views(r@) =~= key_views(self.pairs().take(i + 1)));
            i += 1;
        }
        assert(self.pairs().take(i as int) =~= self.pairs());
        r
    }

    /// Keep only the entries whose key is one of `keys`.
    pub fn retain_keys(&mut self, keys: &Vec<String>)
        requires
            old(self).wf(),
        ensures
            final(self).wf(),
            final(self).as_map() == old(self).as_map().restrict(string_views(keys@).to_set()),
    {
        let ghost kept = string_views(keys@).to_set();
        let ghost orig = self.as_map();
        let own = self.keys();
        let ghost own_views = string_views(own@);
        proof {
            self.lemma_keys_are_dom();
        }
        let mut i: usize = 0;
        while i < own.len()
            invariant
                self.wf(),
                i <= own@.len(),
                own_views == string_views(own@),
                orig.dom() == own_views.to_set(),
                kept == string_views(keys@).to_set(),
                forall|k: Seq<char>| #[trigger] self.as_map().dom().contains(k) <==>
                    (orig.dom().contains(k) && !(own_views.take(i as int).contains(k) && !kept.contains(k))),
                forall|k: Seq<char>| #[trigger] self.as_map().dom().contains(k) ==> self.as_map()[k] == orig[k],
            decreases own@.len() - i,
        {
            let k = own[i].as_str();
            let present = crate::state::contains_str(keys, k);
            let ghost before = self.as_map();
            if !present {
                self.remove(k);
            }
            proof {
                assert(own_views[i as int] == k@);
                assert(own_views.take(i + 1) =~= own_views.take(i as int).push(k@));
                assert(string_views(keys@).contains(k@) == kept.contains(k@));
                assert forall|x: Seq<char>| #[trigger] self.as_map().dom().contains(x) <==>
                    (orig.dom().contains(x) && !(own_views.take(i + 1).contains(x) && !kept.contains(x))) by {
                    if own_views.take(i + 1).contains(x) {
                        let j = choose|j: int| 0 <= j < i + 1 && #[trigger] own_views.take(i + 1)[j] == x;
                        if j < i {
                            assert(own_views.take(i as int)[j] == x);
                        }
                    }
                    if own_views.take(i as int).contains(x) {
                        let j = choose|j: int| 0 <= j < i && #[trigger] own_views.take(i as int)[j] == x;
                        assert(own_views.take(i + 1)[j] == x);
                    }
                    if x == k@ {
                        assert(own_views.take(i + 1)[i as int] == x);
                    }
                    assert(own_views.take(i + 1).contains(x) <==> (own_views.take(i as int).contains(x) || x == k@));
                    if x != k@ {
                        assert(self.as_map().dom().contains(x) == before.dom().contains(x));
                    }
                }
            }
            i += 1;
        }
        proof {
            assert(own_views.take(i as int) =~= own_views);
            assert forall|k: Seq<char>| #[trigger] self.as_map().dom().contains(k) <==> orig.restrict(kept).dom().contains(k) by {
                if orig.dom().contains(k) {
                    assert(own_views.contains(k));
                }
            }
        }
        assert(self.as_map() =~= orig.restrict(kept));
    }

    proof fn lemma_keys_are_dom(&self)
        requires
            self.wf(),
        ensures
            self.as_map().dom() == key_views(self.pairs()).to_set(),
    {
        let keys = key_views(self.pairs());
        assert forall|k: Seq<char>| #[trigger] self.as_map().dom().contains(k) <==> keys.to_set().contains(k) by {
            if self.has(k) {
                let i = choose|i: int| 0 <= i < self.pairs().len() && #[trigger] self.pairs()[i].0@ == k;
                assert(keys[i] == k);
            }
            if keys.contains(k) {
                let i = choose|i: int| 0 <= i < keys.len() && keys[i] == k;
                assert(self.pairs()[i].0@ == k);
            }
        }
        assert(self.as_map().dom() =~= keys.to_set());
    }
}

} // verus!
