use vstd::prelude::*;

verus! {

/// One occupied slot of the dense sequence.
struct Entry<T> {
    key: u64,
    value: T,
}

/// A map from `u64` keys to values with constant-time insertion, lookup
/// and removal.
///
/// The values live next to their keys in `dense`, without gaps and in the
/// order described by [`SparseSet::keys`]. `sparse` is indexed by key and
/// holds, for each key, either the position of its entry in `dense` or
/// `usize::MAX` for "absent".
pub struct SparseSet<T> {
    dense: Vec<Entry<T>>,
    sparse: Vec<usize>,
}

/// Borrows the value of the entry at `idx` for writing. The key of the
/// entry, and every other entry, stay as they are.
fn value_at<T>(dense: &mut Vec<Entry<T>>, idx: usize) -> (value: &mut T)
    requires
        idx < old(dense)@.len(),
    ensures
        *value == old(dense)@[idx as int].value,
        final(dense)@ == old(dense)@.update(
            idx as int,
            Entry { key: old(dense)@[idx as int].key, value: *final(value) },
        ),
    no_unwind
{
    &mut dense[idx].value
}

impl<T> View for SparseSet<T> {
    type V = Map<u64, T>;

    /// The set as a finite map from the keys it holds to their values.
    closed spec fn view(&self) -> Map<u64, T> {
        Map::new(
            |k: u64| self.slot(k) != usize::MAX,
            |k: u64| self.dense@[self.slot(k) as int].value,
        )
    }
}

impl<T> SparseSet<T> {
    /// What `sparse` records for `key`; `usize::MAX` beyond its end.
    spec fn slot(&self, key: u64) -> usize {
        if (key as int) < self.sparse@.len() {
            self.sparse@[key as int]
        } else {
            usize::MAX
        }
    }

    /// The keys in dense order: the order of first insertion, except that
    /// each removal moves the last key into the place of the removed one.
    pub closed spec fn keys(&self) -> Seq<u64> {
        Seq::new(self.dense@.len(), |i: int| self.dense@[i].key)
    }

    /// The two sequences point at each other: every dense entry is recorded
    /// under its key, and every recorded position holds an entry with that
    /// key.
    #[verifier::type_invariant]
    pub closed spec fn wf(&self) -> bool {
        &&& forall|i: int|
            0 <= i < self.dense@.len() ==> (#[trigger] self.dense@[i]).key < self.sparse@.len()
                && self.sparse@[self.dense@[i].key as int] == i
        &&& forall|k: int|
            0 <= k < self.sparse@.len() && #[trigger] self.sparse@[k] != usize::MAX
                ==> self.sparse@[k] < self.dense@.len() && self.dense@[self.sparse@[k] as int].key
                == k
    }

    /// The value stored under `key`, if any.
    pub open spec fn spec_get(&self, key: u64) -> Option<T> {
        if self@.contains_key(key) {
            Some(self@[key])
        } else {
            None
        }
    }

    /// Creates an empty set.
    pub fn new() -> (set: Self)
        ensures
            set@ == Map::<u64, T>::empty(),
            set.keys() == Seq::<u64>::empty(),
    {
        SparseSet { dense: Vec::new(), sparse: Vec::new() }
    }

    /// Returns the number of keys in the set.
    pub fn len(&self) -> (n: usize)
        ensures
            n == self.keys().len(),
            n == self@.len(),
    {
        proof {
            use_type_invariant(self);
            self.lemma_keys_describe_view();
        }
        self.dense.len()
    }

    /// Returns `true` if the set holds no key.
    pub fn is_empty(&self) -> (empty: bool)
        ensures
            empty == (self.keys().len() == 0),
            empty == (self@ == Map::<u64, T>::empty()),
    {
        proof {
            use_type_invariant(self);
            self.lemma_keys_describe_view();
            if self.keys().len() == 0 {
                assert(self@ =~= Map::<u64, T>::empty());
            }
        }
        self.dense.is_empty()
    }

    /// Returns a reference to the value stored under `key`, or `None` if
    /// the set holds no such key.
    pub fn get(&self, key: u64) -> (value: Option<&T>)
        ensures
            match value {
                Some(v) => self.spec_get(key) == Some(*v),
                None => self.spec_get(key) is None,
            },
    {
        proof {
            use_type_invariant(self);
        }
        if key < self.sparse.len() as u64 {
            let idx = self.sparse[key as usize];
            if idx != usize::MAX {
                return Some(&self.dense[idx].value);
            }
        }
        None
    }

    /// Returns a mutable reference to the value stored under `key`, or
    /// `None` if the set holds no such key. Whatever the caller writes
    /// through the reference replaces the value; nothing else changes.
    pub fn get_mut(&mut self, key: u64) -> (value: Option<&mut T>)
        ensures
            final(self).keys() == old(self).keys(),
            match value {
                Some(v) => old(self).spec_get(key) == Some(*v) && final(self)@ == old(
                    self,
                )@.insert(key, *final(v)),
                None => old(self).spec_get(key) is None && final(self)@ == old(self)@,
            },
    {
        proof {
            use_type_invariant(&*self);
        }
        if key < self.sparse.len() as u64 {
            let idx = self.sparse[key as usize];
            if idx != usize::MAX {
                return Some(value_at(&mut self.dense, idx));
            }
        }
        None
    }

    /// Stores `value` under `key`. A key that is already present keeps its
    /// position and has its value replaced; a new key is appended at the
    /// end.
    ///
    /// For a new key the index over the keys grows to `key + 1` slots, so
    /// that number has to fit in a `usize`. A key that is present can
    /// always be overwritten.
    pub fn insert(&mut self, key: u64, value: T)
        requires
            key < usize::MAX || old(self)@.contains_key(key),
        ensures
            final(self)@ == old(self)@.insert(key, value),
            final(self).keys() == (if old(self)@.contains_key(key) {
                old(self).keys()
            } else {
                old(self).keys().push(key)
            }),
    {
        proof {
            use_type_invariant(&*self);
        }
        // While an entry is being added the two sequences disagree, so the
        // set is taken apart here and put together again at the end.
        let mut taken = SparseSet::new();
        std::mem::swap(self, &mut taken);
        let SparseSet { mut dense, mut sparse } = taken;
        if key >= sparse.len() as u64 {
            sparse.resize((key + 1) as usize, usize::MAX);
            assert forall|k: int| 0 <= k < sparse@.len() implies #[trigger] sparse@[k] == (if k
                < old(self).sparse@.len() {
                old(self).sparse@[k]
            } else {
                usize::MAX
            }) by {}
        }
        let ghost grown = SparseSet { dense, sparse };
        let idx = sparse[key as usize];
        if idx != usize::MAX {
            dense[idx].value = value;
        } else {
            proof {
                grown.lemma_absent_key_leaves_room(key);
            }
            let end = dense.len();
            sparse[key as usize] = end;
            dense.push(Entry { key, value });
        }
        *self = SparseSet { dense, sparse };
    }

    /// Removes `key` and returns the value that was stored under it, or
    /// `None` if the set holds no such key. The last key in dense order
    /// takes the place of the removed one.
    pub fn remove(&mut self, key: u64) -> (removed: Option<T>)
        ensures
            removed == old(self).spec_get(key),
            final(self)@ == old(self)@.remove(key),
            final(self).keys() == (if old(self)@.contains_key(key) {
                old(self).keys().update(
                    old(self).keys().index_of(key),
                    old(self).keys().last(),
                ).drop_last()
            } else {
                old(self).keys()
            }),
    {
        proof {
            use_type_invariant(&*self);
        }
        if key >= self.sparse.len() as u64 {
            return None;
        }
        let dense_idx = self.sparse[key as usize];
        if dense_idx == usize::MAX {
            return None;
        }
        // As in `insert`: the set is taken apart while the sequences disagree.
        let mut taken = SparseSet::new();
        std::mem::swap(self, &mut taken);
        let SparseSet { mut dense, mut sparse } = taken;
        let removed_entry = dense.swap_remove(dense_idx);
        sparse[key as usize] = usize::MAX;
        if dense_idx < dense.len() {
            let swapped_key = dense[dense_idx].key;
            sparse[swapped_key as usize] = dense_idx;
        }
        proof {
            assert(old(self).dense.len() <= usize::MAX);
            assert(old(self).keys()[dense_idx as int] == key);
        }
        *self = SparseSet { dense, sparse };
        Some(removed_entry.value)
    }

    /// A key that the set holds leaves room for one more slot behind it in
    /// the index: it meets what `insert` asks of a new key.
    pub proof fn lemma_present_key_fits(&self, key: u64)
        requires
            self.wf(),
            self@.contains_key(key),
        ensures
            key < usize::MAX,
    {
        assert(self.sparse.len() <= usize::MAX);
    }

    /// The keys of the view are exactly the entries of `keys`, each once.
    pub proof fn lemma_keys_describe_view(&self)
        requires
            self.wf(),
        ensures
            self.keys().no_duplicates(),
            self.keys().to_set() == self@.dom(),
            self@.dom().finite(),
            self@.len() == self.keys().len(),
    {
        let keys = self.keys();
        assert forall|k: u64| keys.to_set().contains(k) implies self@.dom().contains(k) by {
            assert(self.dense.len() <= usize::MAX);
        }
        assert forall|k: u64| self@.dom().contains(k) implies keys.to_set().contains(k) by {
            assert(keys[self.sparse@[k as int] as int] == k);
        }
        keys.unique_seq_to_set();
    }

    /// A key that is within the index but absent leaves the dense sequence
    /// shorter than the index.
    proof fn lemma_absent_key_leaves_room(&self, key: u64)
        requires
            self.wf(),
            (key as int) < self.sparse@.len(),
            self.sparse@[key as int] == usize::MAX,
        ensures
            self.dense@.len() < self.sparse@.len(),
    {
        self.lemma_keys_describe_view();
        let dom = self@.dom();
        let as_index = |k: u64| k as int;
        let image = dom.map(as_index);
        let room = vstd::set_lib::set_int_range(0, self.sparse@.len() as int).remove(key as int);
        vstd::set_lib::lemma_map_size(dom, image, as_index);
        vstd::set_lib::lemma_int_range(0, self.sparse@.len() as int);
        vstd::set_lib::lemma_len_subset(image, room);
    }
}

impl<T> Default for SparseSet<T> {
    /// Creates an empty set.
    fn default() -> (set: Self)
        ensures
            set@ == Map::<u64, T>::empty(),
            set.keys() == Seq::<u64>::empty(),
    {
        Self::new()
    }
}

/// Round trip: after `insert(key, value)`, a lookup of `key` finds `value`.
pub proof fn lemma_insert_then_get<T>(set: SparseSet<T>, key: u64, value: T)
    ensures
        set@.insert(key, value).contains_key(key),
        set@.insert(key, value)[key] == value,
{
}

/// Overwrite: inserting twice under one key leaves what inserting the
/// second value alone leaves, and the second insertion does not change the
/// number of keys.
pub proof fn lemma_insert_twice_keeps_len<T>(set: SparseSet<T>, key: u64, first: T, second: T)
    ensures
        set@.insert(key, first).insert(key, second) == set@.insert(key, second),
        set@.insert(key, first).insert(key, second).len() == set@.insert(key, first).len(),
{
    assert(set@.insert(key, first).insert(key, second) =~= set@.insert(key, second));
}

/// Overwrite of a present key: `insert` under a key that the set holds
/// stores the new value and makes no second entry, so the number of keys
/// stays what it was.
pub proof fn lemma_overwrite_keeps_len<T>(set: SparseSet<T>, key: u64, value: T)
    requires
        set@.contains_key(key),
    ensures
        set@.insert(key, value).len() == set@.len(),
        set@.insert(key, value)[key] == value,
        set@.insert(key, value).dom() == set@.dom(),
{
    assert(set@.insert(key, value).dom() =~= set@.dom());
}

/// Removal leaves the other keys alone: whatever `other` was mapped to
/// before `key` was removed, it is mapped to afterwards.
pub proof fn lemma_remove_keeps_other_keys<T>(set: SparseSet<T>, key: u64, other: u64)
    requires
        other != key,
    ensures
        set@.remove(key).contains_key(other) == set@.contains_key(other),
        set@.contains_key(other) ==> set@.remove(key)[other] == set@[other],
{
}

/// Removal reindexes without loss: when `key` leaves the dense order and
/// the last key takes its place, every other key is still there, once.
pub proof fn lemma_remove_reindexes_without_loss(keys: Seq<u64>, key: u64)
    requires
        keys.no_duplicates(),
        keys.contains(key),
    ensures
        ({
            let after = keys.update(keys.index_of(key), keys.last()).drop_last();
            &&& after.no_duplicates()
            &&& after.to_set() == keys.to_set().remove(key)
        }),
{
    let at = keys.index_of(key);
    let after = keys.update(at, keys.last()).drop_last();
    assert forall|k: u64| after.to_set().contains(k) <==> keys.to_set().remove(key).contains(
        k,
    ) by {
        if keys.contains(k) && k != key {
            let i = choose|i: int| 0 <= i < keys.len() && keys[i] == k;
            if i == keys.len() - 1 {
                assert(after[at] == k);
            } else {
                assert(after[i] == k);
            }
        }
    }
}

/// Removing a key that is absent returns nothing and changes nothing, the
/// number of keys included.
pub proof fn lemma_remove_absent_key<T>(set: SparseSet<T>, key: u64)
    requires
        !set@.contains_key(key),
    ensures
        set.spec_get(key) is None,
        set@.remove(key) == set@,
        set@.remove(key).len() == set@.len(),
{
}

} // verus!
