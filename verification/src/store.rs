use vstd::prelude::*;

verus! {

/// One key/value pair of a [`KeyedStore`].
pub struct StoreEntry<V> {
    pub key: Vec<u8>,
    pub val: V,
}

/// An owned keyed store: an association vector whose keys are pairwise
/// distinct, abstracted for specification purposes as a `Map` from the
/// key bytes to the stored value.
///
/// Every operation states its effect against that map, so callers reason
/// about the store purely as a mathematical map.
pub struct KeyedStore<V> {
    entries: Vec<StoreEntry<V>>,
}

spec fn seq_has_key<V>(s: Seq<StoreEntry<V>>, k: Seq<u8>) -> bool {
    exists|i: int| 0 <= i < s.len() && s[i].key@ == k
}

spec fn seq_index_of<V>(s: Seq<StoreEntry<V>>, k: Seq<u8>) -> int {
    choose|i: int| 0 <= i < s.len() && s[i].key@ == k
}

spec fn seq_value_of<V>(s: Seq<StoreEntry<V>>, k: Seq<u8>) -> V {
    s[seq_index_of(s, k)].val
}

spec fn seq_distinct_keys<V>(s: Seq<StoreEntry<V>>) -> bool {
    forall|i: int, j: int| 0 <= i < j < s.len() ==> s[i].key@ != s[j].key@
}

/// With distinct keys, the value chosen for the key at index `i` is the
/// value stored at index `i`.
proof fn lemma_value_at<V>(s: Seq<StoreEntry<V>>, i: int)
    requires
        seq_distinct_keys(s),
        0 <= i < s.len(),
    ensures
        seq_has_key(s, s[i].key@),
        seq_index_of(s, s[i].key@) == i,
        seq_value_of(s, s[i].key@) == s[i].val,
{
    assert(seq_has_key(s, s[i].key@));
    let j = seq_index_of(s, s[i].key@);
    assert(0 <= j < s.len() && s[j].key@ == s[i].key@);
    if i < j {
        assert(s[i].key@ != s[j].key@);
    }
    if j < i {
        assert(s[j].key@ != s[i].key@);
    }
}

impl<V> View for KeyedStore<V> {
    type V = Map<Seq<u8>, V>;

    closed spec fn view(&self) -> Map<Seq<u8>, V> {
        Map::new(
            |k: Seq<u8>| seq_has_key(self.entries@, k),
            |k: Seq<u8>| seq_value_of(self.entries@, k),
        )
    }
}

/// Compare two byte strings for equality of their contents.
fn bytes_eq(a: &Vec<u8>, b: &Vec<u8>) -> (r: bool)
    ensures
        r == (a@ == b@),
{
    if a.len() != b.len() {
        assert(a@ != b@);
        return false;
    }
    let mut i: usize = 0;
    while i < a.len()
        invariant
            i <= a.len(),
            a@.len() == b@.len(),
            forall|j: int| 0 <= j < i ==> a@[j] == b@[j],
        decreases a@.len() - i,
    {
        if a[i] != b[i] {
            assert(a@ != b@);
            return false;
        }
        i += 1;
    }
    proof {
        assert(a@ =~= b@);
    }
    true
}

/// Copy a byte string.
pub fn clone_bytes(v: &Vec<u8>) -> (r: Vec<u8>)
    ensures
        r@ == v@,
{
    let mut r: Vec<u8> = Vec::new();
    let mut i: usize = 0;
    while i < v.len()
        invariant
            i <= v.len(),
            r@ == v@.subrange(0, i as int),
        decreases v@.len() - i,
    {
        r.push(v[i]);
        proof {
            assert(r@ =~= v@.subrange(0, i + 1 as int));
        }
        i += 1;
    }
    proof {
        assert(v@.subrange(0, v@.len() as int) =~= v@);
    }
    r
}

impl<V> KeyedStore<V> {
    /// The keys of the underlying vector are pairwise distinct.
    pub closed spec fn wf(&self) -> bool {
        seq_distinct_keys(self.entries@)
    }

    /// An empty store.
    pub fn new() -> (r: Self)
        ensures
            r.wf(),
            r@ == Map::<Seq<u8>, V>::empty(),
    {
        let r = KeyedStore { entries: Vec::new() };
        proof {
            assert(r@ =~= Map::<Seq<u8>, V>::empty());
        }
        r
    }

    fn find_index(&self, key: &Vec<u8>) -> (r: Option<usize>)
        ensures
            match r {
                Some(i) => i < self.entries@.len() && self.entries@[i as int].key@ == key@,
                None => !seq_has_key(self.entries@, key@),
            },
    {
        let mut i: usize = 0;
        while i < self.entries.len()
            invariant
                i <= self.entries@.len(),
                forall|j: int| 0 <= j < i ==> self.entries@[j].key@ != key@,
            decreases self.entries@.len() - i,
        {
            if bytes_eq(&self.entries[i].key, key) {
                return Some(i);
            }
            i += 1;
        }
        None
    }

    /// Whether a value is stored under `key`.
    pub fn contains_key(&self, key: &Vec<u8>) -> (r: bool)
        ensures
            r == self@.contains_key(key@),
    {
        match self.find_index(key) {
            Some(_) => true,
            None => false,
        }
    }

    /// Look up the value stored under `key`.
    pub fn get(&self, key: &Vec<u8>) -> (r: Option<&V>)
        requires
            self.wf(),
        ensures
            match r {
                Some(v) => self@.contains_key(key@) && *v == self@[key@],
                None => !self@.contains_key(key@),
            },
    {
        match self.find_index(key) {
            Some(i) => {
                proof {
                    lemma_value_at(self.entries@, i as int);
                }
                Some(&self.entries[i].val)
            },
            None => None,
        }
    }

    /// Store `val` under `key`, replacing any previous value.
    pub fn insert(&mut self, key: Vec<u8>, val: V)
        requires
            old(self).wf(),
        ensures
            final(self).wf(),
            final(self)@ == old(self)@.insert(key@, val),
    {
        let ghost s0 = self.entries@;
        let ghost k = key@;
        match self.find_index(&key) {
            Some(i) => {
                self.entries.set(i, StoreEntry { key, val });
                proof {
                    let s1 = self.entries@;
                    assert forall|a: int, b: int| 0 <= a < b < s1.len() implies s1[a].key@
                        != s1[b].key@ by {
                        assert(s0[a].key@ != s0[b].key@);
                    }
                    lemma_store_insert_at(s0, s1, i as int, k, val);
                    assert(self@ =~= old(self)@.insert(k, val));
                }
            },
            None => {
                self.entries.push(StoreEntry { key, val });
                proof {
                    let s1 = self.entries@;
                    assert forall|a: int, b: int| 0 <= a < b < s1.len() implies s1[a].key@
                        != s1[b].key@ by {
                        if b < s1.len() - 1 {
                            assert(s0[a].key@ != s0[b].key@);
                        } else {
                            assert(s0[a].key@ == s1[a].key@);
                            assert(seq_has_key(s0, s1[a].key@));
                        }
                    }
                    lemma_store_insert_at(s0, s1, s0.len() as int, k, val);
                    assert(self@ =~= old(self)@.insert(k, val));
                }
            },
        }
    }

    /// The stored keys: one copy of each, every one present in the store,
    /// and none of the store's keys missing.
    pub fn keys(&self) -> (r: Vec<Vec<u8>>)
        ensures
            forall|i: int| 0 <= i < r@.len() ==> self@.contains_key(#[trigger] r@[i]@),
            forall|k: Seq<u8>| #[trigger] self@.contains_key(k) ==> exists|i: int|
                0 <= i < r@.len() && r@[i]@ == k,
    {
        let mut r: Vec<Vec<u8>> = Vec::new();
        let mut j: usize = 0;
        while j < self.entries.len()
            invariant
                j <= self.entries@.len(),
                r@.len() == j,
                forall|i: int| 0 <= i < j ==> r@[i]@ == self.entries@[i].key@,
            decreases self.entries@.len() - j,
        {
            r.push(clone_bytes(&self.entries[j].key));
            j += 1;
        }
        proof {
            assert forall|i: int| 0 <= i < r@.len() implies self@.contains_key(
                #[trigger] r@[i]@,
            ) by {
                assert(seq_has_key(self.entries@, self.entries@[i].key@));
            }
            assert forall|k: Seq<u8>| #[trigger] self@.contains_key(k) implies exists|i: int|
                0 <= i < r@.len() && r@[i]@ == k by {
                let i = choose|i: int|
                    0 <= i < self.entries@.len() && self.entries@[i].key@ == k;
                assert(r@[i]@ == k);
            }
        }
        r
    }

    /// Remove and return the value stored under `key`, if any.
    pub fn remove(&mut self, key: &Vec<u8>) -> (r: Option<V>)
        requires
            old(self).wf(),
        ensures
            final(self).wf(),
            match r {
                Some(v) => old(self)@.contains_key(key@) && v == old(self)@[key@]
                    && final(self)@ == old(self)@.remove(key@),
                None => !old(self)@.contains_key(key@) && *final(self) == *old(self),
            },
    {
        let ghost s0 = self.entries@;
        let ghost k = key@;
        match self.find_index(key) {
            Some(i) => {
                proof {
                    lemma_value_at(s0, i as int);
                }
                let e = self.entries.remove(i);
                proof {
                    let s1 = self.entries@;
                    assert forall|a: int, b: int| 0 <= a < b < s1.len() implies s1[a].key@
                        != s1[b].key@ by {
                        let a0 = if a < i { a } else { a + 1 };
                        let b0 = if b < i { b } else { b + 1 };
                        assert(s1[a] == s0[a0]);
                        assert(s1[b] == s0[b0]);
                        assert(s0[a0].key@ != s0[b0].key@);
                    }
                    lemma_store_remove_at(s0, s1, i as int);
                    assert(self@ =~= old(self)@.remove(k));
                }
                Some(e.val)
            },
            None => None,
        }
    }
}

/// After writing `(k, val)` at position `i` of a distinct-keys sequence
/// whose key at `i` was `k` (or appending it at the end), the abstract map
/// of the new sequence is the old map with `k` bound to `val`.
proof fn lemma_store_insert_at<V>(
    s0: Seq<StoreEntry<V>>,
    s1: Seq<StoreEntry<V>>,
    i: int,
    k: Seq<u8>,
    val: V,
)
    requires
        seq_distinct_keys(s0),
        seq_distinct_keys(s1),
        0 <= i <= s0.len(),
        s1.len() == if i == s0.len() {
            s0.len() + 1
        } else {
            s0.len()
        },
        forall|j: int| 0 <= j < s0.len() && j != i ==> s1[j] == s0[j],
        s1[i].key@ == k && s1[i].val == val,
        i < s0.len() ==> s0[i].key@ == k,
        i == s0.len() ==> !seq_has_key(s0, k),
    ensures
        Map::new(
            |q: Seq<u8>| seq_has_key(s1, q),
            |q: Seq<u8>| seq_value_of(s1, q),
        ) =~= Map::new(
            |q: Seq<u8>| seq_has_key(s0, q),
            |q: Seq<u8>| seq_value_of(s0, q),
        ).insert(k, val),
{
    let m1 = Map::new(|q: Seq<u8>| seq_has_key(s1, q), |q: Seq<u8>| seq_value_of(s1, q));
    let m0 = Map::new(|q: Seq<u8>| seq_has_key(s0, q), |q: Seq<u8>| seq_value_of(s0, q));
    assert forall|q: Seq<u8>| seq_has_key(s1, q) <==> (seq_has_key(s0, q) || q == k) by {
        if seq_has_key(s1, q) {
            let j = choose|j: int| 0 <= j < s1.len() && s1[j].key@ == q;
            if j != i {
                assert(s0[j].key@ == q);
            }
        }
        if seq_has_key(s0, q) {
            let j = choose|j: int| 0 <= j < s0.len() && s0[j].key@ == q;
            if j == i {
                assert(s1[i].key@ == q);
            } else {
                assert(s1[j].key@ == q);
            }
        }
        if q == k {
            assert(s1[i].key@ == q);
        }
    }
    assert forall|q: Seq<u8>| #[trigger] m1.contains_key(q) implies m1[q] == m0.insert(k, val)[q] by {
        if q == k {
            lemma_value_at(s1, i);
        } else {
            let j = choose|j: int| 0 <= j < s1.len() && s1[j].key@ == q;
            assert(j != i);
            assert(s0[j].key@ == q);
            lemma_value_at(s1, j);
            lemma_value_at(s0, j);
        }
    }
}

/// After deleting position `i` of a distinct-keys sequence, the abstract
/// map of the new sequence is the old map without the key at `i`.
proof fn lemma_store_remove_at<V>(s0: Seq<StoreEntry<V>>, s1: Seq<StoreEntry<V>>, i: int)
    requires
        seq_distinct_keys(s0),
        seq_distinct_keys(s1),
        0 <= i < s0.len(),
        s1.len() == s0.len() - 1,
        forall|j: int| 0 <= j < i ==> s1[j] == s0[j],
        forall|j: int| i <= j < s1.len() ==> s1[j] == s0[j + 1],
    ensures
        Map::new(
            |q: Seq<u8>| seq_has_key(s1, q),
            |q: Seq<u8>| seq_value_of(s1, q),
        ) =~= Map::new(
            |q: Seq<u8>| seq_has_key(s0, q),
            |q: Seq<u8>| seq_value_of(s0, q),
        ).remove(s0[i].key@),
{
    let k = s0[i].key@;
    let m1 = Map::new(|q: Seq<u8>| seq_has_key(s1, q), |q: Seq<u8>| seq_value_of(s1, q));
    let m0 = Map::new(|q: Seq<u8>| seq_has_key(s0, q), |q: Seq<u8>| seq_value_of(s0, q));
    assert forall|q: Seq<u8>| seq_has_key(s1, q) <==> (seq_has_key(s0, q) && q != k) by {
        if seq_has_key(s1, q) {
            let j = choose|j: int| 0 <= j < s1.len() && s1[j].key@ == q;
            let j0 = if j < i { j } else { j + 1 };
            assert(s0[j0].key@ == q);
            if j0 < i {
                assert(s0[j0].key@ != s0[i].key@);
            }
            if i < j0 {
                assert(s0[i].key@ != s0[j0].key@);
            }
        }
        if seq_has_key(s0, q) && q != k {
            let j0 = choose|j: int| 0 <= j < s0.len() && s0[j].key@ == q;
            assert(j0 != i);
            let j = if j0 < i { j0 } else { j0 - 1 };
            assert(s1[j].key@ == q);
        }
    }
    assert forall|q: Seq<u8>| #[trigger] m1.contains_key(q) implies m1[q] == m0.remove(k)[q] by {
        let j = choose|j: int| 0 <= j < s1.len() && s1[j].key@ == q;
        let j0 = if j < i { j } else { j + 1 };
        assert(s0[j0].key@ == q);
        lemma_value_at(s1, j);
        lemma_value_at(s0, j0);
    }
}

} // verus!
