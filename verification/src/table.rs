use vstd::prelude::*;

verus! {

/// The views of a list of strings.
pub open spec fn str_views(strs: Seq<String>) -> Seq<Seq<char>> {
    strs.map_values(|s: String| s@)
}

/// Index of the first entry of `keys` that equals `k`, or `-1` when no entry
/// does.
pub open spec fn first_index(keys: Seq<Seq<char>>, k: Seq<char>) -> int
    decreases keys.len(),
{
    if keys.len() == 0 {
        -1
    } else if keys[0] == k {
        0
    } else if first_index(keys.drop_first(), k) == -1 {
        -1
    } else {
        first_index(keys.drop_first(), k) + 1
    }
}

pub proof fn lemma_first_index_bounds(keys: Seq<Seq<char>>, k: Seq<char>)
    ensures
        first_index(keys, k) == -1 || (0 <= first_index(keys, k) < keys.len()
            && keys[first_index(keys, k)] == k),
    decreases keys.len(),
{
    if keys.len() > 0 && keys[0] != k {
        lemma_first_index_bounds(keys.drop_first(), k);
    }
}

/// When `k` sits at position `i` and nowhere earlier, `first_index` finds `i`.
pub proof fn lemma_first_index_at(keys: Seq<Seq<char>>, k: Seq<char>, i: int)
    requires
        0 <= i < keys.len(),
        keys[i] == k,
        forall|j: int| 0 <= j < i ==> keys[j] != k,
    ensures
        first_index(keys, k) == i,
    decreases keys.len(),
{
    if i > 0 {
        assert(keys[0] != k);
        assert(keys.drop_first()[i - 1] == k);
        assert(forall|j: int| 0 <= j < i - 1 ==> keys.drop_first()[j] != k);
        lemma_first_index_at(keys.drop_first(), k, i - 1);
    }
}

pub proof fn lemma_first_index_absent(keys: Seq<Seq<char>>, k: Seq<char>)
    requires
        forall|i: int| 0 <= i < keys.len() ==> keys[i] != k,
    ensures
        first_index(keys, k) == -1,
    decreases keys.len(),
{
    if keys.len() > 0 {
        assert(forall|i: int| 0 <= i < keys.drop_first().len() ==> keys.drop_first()[i] != k);
        lemma_first_index_absent(keys.drop_first(), k);
    }
}

pub proof fn lemma_first_index_none(keys: Seq<Seq<char>>, k: Seq<char>)
    requires
        first_index(keys, k) == -1,
    ensures
        forall|i: int| 0 <= i < keys.len() ==> keys[i] != k,
    decreases keys.len(),
{
    if keys.len() > 0 {
        lemma_first_index_bounds(keys.drop_first(), k);
        lemma_first_index_none(keys.drop_first(), k);
        assert forall|i: int| 0 <= i < keys.len() implies keys[i] != k by {
            if i > 0 {
                assert(keys.drop_first()[i - 1] == keys[i]);
            }
        }
    }
}

pub proof fn lemma_first_index_contains(keys: Seq<Seq<char>>, k: Seq<char>)
    ensures
        first_index(keys, k) >= 0 <==> keys.contains(k),
{
    lemma_first_index_bounds(keys, k);
    if first_index(keys, k) >= 0 {
        assert(keys[first_index(keys, k)] == k);
    } else {
        lemma_first_index_none(keys, k);
        if keys.contains(k) {
            let i = choose|i: int| 0 <= i < keys.len() && keys[i] == k;
            assert(keys[i] != k);
        }
    }
}

/// An association table from address strings to values, kept in insertion
/// order. It stands for the host's per-key storage map together with the
/// stored address list that the contracts keep beside it.
pub struct Table<V> {
    keys: Vec<String>,
    vals: Vec<V>,
}

impl<V> Table<V> {
    /// The stored addresses, in insertion order.
    pub closed spec fn key_seq(&self) -> Seq<Seq<char>> {
        self.keys@.map_values(|s: String| s@)
    }

    /// The stored values, positionally matching `key_seq`.
    pub closed spec fn val_seq(&self) -> Seq<V> {
        self.vals@
    }

    /// Keys and values stay in lock-step and no address is stored twice.
    pub open spec fn wf(&self) -> bool {
        &&& self.key_seq().len() == self.val_seq().len()
        &&& forall|i: int, j: int|
            0 <= i < j < self.key_seq().len() ==> self.key_seq()[i] != self.key_seq()[j]
    }

    pub open spec fn spec_contains(&self, k: Seq<char>) -> bool {
        first_index(self.key_seq(), k) >= 0
    }

    /// The value stored under `k`, if any.
    pub open spec fn spec_get(&self, k: Seq<char>) -> Option<V> {
        if first_index(self.key_seq(), k) >= 0 {
            Some(self.val_seq()[first_index(self.key_seq(), k)])
        } else {
            None
        }
    }

    pub fn new() -> (t: Self)
        ensures
            t.wf(),
            t.key_seq() == Seq::<Seq<char>>::empty(),
            t.val_seq() == Seq::<V>::empty(),
    {
        let t = Table { keys: Vec::new(), vals: Vec::new() };
        proof {
            assert(t.key_seq() =~= Seq::<Seq<char>>::empty());
        }
        t
    }

    pub fn len(&self) -> (n: usize)
        ensures
            n == self.key_seq().len(),
    {
        self.keys.len()
    }

    pub fn key_at(&self, i: usize) -> (k: &String)
        requires
            i < self.key_seq().len(),
        ensures
            k@ == self.key_seq()[i as int],
    {
        &self.keys[i]
    }

    pub fn val_at(&self, i: usize) -> (v: &V)
        requires
            self.wf(),
            i < self.key_seq().len(),
        ensures
            *v == self.val_seq()[i as int],
    {
        &self.vals[i]
    }

    /// Linear scan for `key`; any hit is the first one.
    pub fn find(&self, key: &String) -> (r: Option<usize>)
        requires
            self.wf(),
        ensures
            match r {
                Some(i) => first_index(self.key_seq(), key@) == i as int && i
                    < self.key_seq().len(),
                None => first_index(self.key_seq(), key@) == -1,
            },
    {
        let n = self.keys.len();
        let mut i: usize = 0;
        while i < n
            invariant
                n == self.key_seq().len(),
                i <= n,
                self.wf(),
                forall|j: int| 0 <= j < i ==> self.key_seq()[j] != key@,
            decreases n - i,
        {
            if self.keys[i] == *key {
                proof {
                    lemma_first_index_at(self.key_seq(), key@, i as int);
                }
                return Some(i);
            }
            i = i + 1;
        }
        proof {
            lemma_first_index_absent(self.key_seq(), key@);
        }
        None
    }

    pub fn contains(&self, key: &String) -> (b: bool)
        requires
            self.wf(),
        ensures
            b == self.spec_contains(key@),
    {
        proof {
            lemma_first_index_bounds(self.key_seq(), key@);
        }
        self.find(key).is_some()
    }

    pub fn get(&self, key: &String) -> (r: Option<&V>)
        requires
            self.wf(),
        ensures
            match r {
                Some(v) => self.spec_get(key@) == Some(*v),
                None => self.spec_get(key@) is None,
            },
    {
        match self.find(key) {
            Some(i) => Some(&self.vals[i]),
            None => None,
        }
    }

    /// Store `val` under `key`: overwrite in place when the key is present,
    /// append a fresh entry otherwise.
    pub fn upsert(&mut self, key: &String, val: V)
        requires
            old(self).wf(),
        ensures
            final(self).wf(),
            old(self).spec_contains(key@) ==> {
                &&& final(self).key_seq() == old(self).key_seq()
                &&& final(self).val_seq() == old(self).val_seq().update(
                    first_index(old(self).key_seq(), key@),
                    val,
                )
            },
            !old(self).spec_contains(key@) ==> {
                &&& final(self).key_seq() == old(self).key_seq().push(key@)
                &&& final(self).val_seq() == old(self).val_seq().push(val)
            },
            final(self).spec_get(key@) == Some(val),
            forall|k2: Seq<char>|
                k2 != key@ ==> final(self).spec_get(k2) == old(self).spec_get(k2),
    {
        let ghost old_keys = self.key_seq();
        let ghost old_vals = self.val_seq();
        match self.find(key) {
            Some(i) => {
                self.vals.set(i, val);
                proof {
                    assert(self.key_seq() == old_keys);
                    assert(self.val_seq() =~= old_vals.update(i as int, val));
                    lemma_first_index_bounds(old_keys, key@);
                    assert forall|k2: Seq<char>| k2 != key@ implies self.spec_get(k2)
                        == old(self).spec_get(k2) by {
                        lemma_first_index_bounds(old_keys, k2);
                        if first_index(old_keys, k2) >= 0 {
                            assert(old_keys[first_index(old_keys, k2)] == k2);
                            assert(first_index(old_keys, k2) != i as int);
                        }
                    }
                }
            },
            None => {
                self.keys.push(key.clone());
                self.vals.push(val);
                proof {
                    assert(self.key_seq() =~= old_keys.push(key@));
                    lemma_first_index_none(old_keys, key@);
                    lemma_first_index_at(self.key_seq(), key@, old_keys.len() as int);
                    assert(self.spec_get(key@) == Some(val));
                    assert forall|i: int, j: int|
                        0 <= i < j < self.key_seq().len() implies self.key_seq()[i]
                        != self.key_seq()[j] by {
                        if j == old_keys.len() as int {
                            assert(self.key_seq()[i] == old_keys[i]);
                            lemma_first_index_none(old_keys, key@);
                        }
                    }
                    assert forall|k2: Seq<char>| k2 != key@ implies self.spec_get(k2)
                        == old(self).spec_get(k2) by {
                        lemma_first_index_push(old_keys, key@, k2);
                        lemma_first_index_bounds(old_keys, k2);
                    }
                }
            },
        }
    }

    /// Remove `key` by swapping the last entry into its slot and truncating;
    /// a missing key is a silent no-op.
    pub fn remove_swap(&mut self, key: &String)
        requires
            old(self).wf(),
        ensures
            final(self).wf(),
            !old(self).spec_contains(key@) ==> *final(self) == *old(self),
            old(self).spec_contains(key@) ==> {
                &&& final(self).key_seq() == old(self).key_seq().update(
                    first_index(old(self).key_seq(), key@),
                    old(self).key_seq().last(),
                ).drop_last()
                &&& final(self).val_seq() == old(self).val_seq().update(
                    first_index(old(self).key_seq(), key@),
                    old(self).val_seq().last(),
                ).drop_last()
            },
            final(self).spec_get(key@) is None,
            forall|k2: Seq<char>|
                k2 != key@ ==> final(self).spec_get(k2) == old(self).spec_get(k2),
    {
        let ghost old_keys = self.key_seq();
        let ghost old_vals = self.val_seq();
        match self.find(key) {
            Some(i) => {
                proof {
                    lemma_first_index_bounds(old_keys, key@);
                }
                self.keys.swap_remove(i);
                self.vals.swap_remove(i);
                proof {
                    let fi = i as int;
                    let n = old_keys.len() as int;
                    assert(self.key_seq() =~= old_keys.update(fi, old_keys.last()).drop_last());
                    assert(self.val_seq() =~= old_vals.update(fi, old_vals.last()).drop_last());
                    let new_keys = self.key_seq();
                    assert forall|a: int, b: int|
                        0 <= a < b < new_keys.len() implies new_keys[a] != new_keys[b] by {
                        assert(new_keys[a] == if a == fi { old_keys[n - 1] } else { old_keys[a] });
                        assert(new_keys[b] == if b == fi { old_keys[n - 1] } else { old_keys[b] });
                    }
                    assert forall|k2: Seq<char>|
                        k2 != key@ implies self.spec_get(k2) == old(self).spec_get(k2) by {
                        lemma_swap_remove_get(old_keys, old_vals, fi, k2);
                    }
                    if first_index(new_keys, key@) >= 0 {
                        lemma_first_index_bounds(new_keys, key@);
                        let w = first_index(new_keys, key@);
                        assert(new_keys[w] == if w == fi { old_keys[n - 1] } else { old_keys[w] });
                        assert(old_keys[fi] == key@);
                    }
                }
            },
            None => {},
        }
    }
}

/// After a push of `k`, lookups of any other key are unchanged.
proof fn lemma_first_index_push(keys: Seq<Seq<char>>, k: Seq<char>, k2: Seq<char>)
    requires
        k2 != k,
    ensures
        first_index(keys.push(k), k2) == first_index(keys, k2),
    decreases keys.len(),
{
    if keys.len() == 0 {
        assert(keys.push(k)[0] == k);
        assert(keys.push(k).drop_first() =~= Seq::<Seq<char>>::empty());
        assert(first_index(keys.push(k).drop_first(), k2) == -1);
    } else {
        assert(keys.push(k)[0] == keys[0]);
        assert(keys.push(k).drop_first() =~= keys.drop_first().push(k));
        lemma_first_index_push(keys.drop_first(), k, k2);
        lemma_first_index_bounds(keys.drop_first(), k2);
    }
}

/// Swap-deleting position `fi` leaves every other key's association intact.
proof fn lemma_swap_remove_get<V>(keys: Seq<Seq<char>>, vals: Seq<V>, fi: int, k2: Seq<char>)
    requires
        keys.len() == vals.len(),
        0 <= fi < keys.len(),
        forall|i: int, j: int| 0 <= i < j < keys.len() ==> keys[i] != keys[j],
        k2 != keys[fi],
    ensures
        ({
            let new_keys = keys.update(fi, keys.last()).drop_last();
            let new_vals = vals.update(fi, vals.last()).drop_last();
            &&& first_index(new_keys, k2) >= 0 <==> first_index(keys, k2) >= 0
            &&& first_index(new_keys, k2) >= 0 ==> new_vals[first_index(new_keys, k2)] == vals[
                first_index(keys, k2)]
        }),
{
    let n = keys.len() as int;
    let new_keys = keys.update(fi, keys.last()).drop_last();
    let new_vals = vals.update(fi, vals.last()).drop_last();
    assert(forall|a: int|
        0 <= a < n - 1 ==> new_keys[a] == (if a == fi { keys[n - 1] } else { keys[a] }));
    lemma_first_index_bounds(keys, k2);
    lemma_first_index_bounds(new_keys, k2);
    if first_index(keys, k2) >= 0 {
        let j = first_index(keys, k2);
        assert(keys[j] == k2);
        assert(j != fi);
        if j == n - 1 {
            // The matching entry was the last one; it moved into slot fi.
            assert(new_keys[fi] == k2);
            assert(forall|a: int| 0 <= a < fi ==> new_keys[a] == keys[a] && keys[a] != k2);
            lemma_first_index_at(new_keys, k2, fi);
            assert(new_vals[fi] == vals[n - 1]);
        } else {
            assert(new_keys[j] == k2);
            assert forall|a: int| 0 <= a < j implies new_keys[a] != k2 by {
                if a == fi {
                    assert(new_keys[a] == keys[n - 1]);
                    if keys[n - 1] == k2 {
                        assert(keys[j] == keys[n - 1]);
                    }
                } else {
                    assert(new_keys[a] == keys[a]);
                }
            }
            lemma_first_index_at(new_keys, k2, j);
            assert(new_vals[j] == vals[j]);
        }
    } else {
        lemma_first_index_none(keys, k2);
        assert(forall|a: int| 0 <= a < n - 1 ==> new_keys[a] != k2);
        lemma_first_index_absent(new_keys, k2);
    }
}

} // verus!
