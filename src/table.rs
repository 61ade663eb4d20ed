use vstd::prelude::*;

use crate::address::{bytes_eq, copy_range};

verus! {

/// Stored state of one key: the highest slot that changed it and its value.
pub type Stamped<V> = (u64, V);

/// What storing `value` observed at `slot` under `key` makes of `m`: a change
/// from a slot no higher than the stored one is a no-op.
pub open spec fn applied<V>(m: Map<Seq<u8>, Stamped<V>>, key: Seq<u8>, slot: u64, value: V) -> Map<
    Seq<u8>,
    Stamped<V>,
> {
    if m.contains_key(key) && m[key].0 >= slot {
        m
    } else {
        m.insert(key, (slot, value))
    }
}

/// One row of a table.
pub struct Entry<V> {
    pub key: Vec<u8>,
    pub slot: u64,
    pub value: V,
}

/// How to take back the last change made to a table.
pub enum Undo<V> {
    Kept,
    Added,
    Replaced { index: usize, slot: u64, value: V },
}

/// Rows keyed by address, each with the highest slot that changed it.
pub struct Table<V> {
    entries: Vec<Entry<V>>,
    contents: Ghost<Map<Seq<u8>, Stamped<V>>>,
}

impl<V: Copy> Table<V> {
    pub closed spec fn view(&self) -> Map<Seq<u8>, Stamped<V>> {
        self.contents@
    }

    pub closed spec fn wf(&self) -> bool {
        &&& forall|i: int, j: int|
            0 <= i < self.entries@.len() && 0 <= j < self.entries@.len() && i != j
                ==> (#[trigger] self.entries@[i]).key@ != (#[trigger] self.entries@[j]).key@
        &&& forall|i: int|
            0 <= i < self.entries@.len() ==> {
                let e = #[trigger] self.entries@[i];
                self.contents@.contains_key(e.key@) && self.contents@[e.key@] == (e.slot, e.value)
            }
        &&& forall|k: Seq<u8>|
            #[trigger] self.contents@.contains_key(k) ==> exists|i: int|
                0 <= i < self.entries@.len() && (#[trigger] self.entries@[i]).key@ == k
    }

    /// Taking back `u` from this table leaves `prior`.
    pub closed spec fn restores(&self, u: Undo<V>, prior: Map<Seq<u8>, Stamped<V>>) -> bool {
        match u {
            Undo::Kept => self.contents@ == prior,
            Undo::Added => self.entries@.len() > 0 && {
                let k = self.entries@.last().key@;
                prior == self.contents@.remove(k)
            },
            Undo::Replaced { index, slot, value } => index < self.entries@.len() && prior
                == self.contents@.insert(self.entries@[index as int].key@, (slot, value)),
        }
    }

    pub fn new() -> (r: Self)
        ensures
            r.wf(),
            r.view() == Map::<Seq<u8>, Stamped<V>>::empty(),
    {
        Table { entries: Vec::new(), contents: Ghost(Map::empty()) }
    }

    fn find(&self, key: &[u8]) -> (r: Option<usize>)
        requires
            self.wf(),
        ensures
            r matches Some(i) ==> i < self.entries@.len() && self.entries@[i as int].key@ == key@,
            r is None ==> !self.view().contains_key(key@),
    {
        let mut i: usize = 0;
        while i < self.entries.len()
            invariant
                self.wf(),
                i <= self.entries@.len(),
                forall|j: int| 0 <= j < i ==> (#[trigger] self.entries@[j]).key@ != key@,
            decreases self.entries@.len() - i,
        {
            if bytes_eq(self.entries[i].key.as_slice(), key) {
                return Some(i);
            }
            i = i + 1;
        }
        None
    }

    /// The stored slot and value of `key`.
    pub fn get(&self, key: &[u8]) -> (r: Option<Stamped<V>>)
        requires
            self.wf(),
        ensures
            r == (if self.view().contains_key(key@) {
                Some(self.view()[key@])
            } else {
                None
            }),
    {
        match self.find(key) {
            Some(i) => Some((self.entries[i].slot, self.entries[i].value)),
            None => None,
        }
    }

    /// Stores `value` under `key` unless the stored slot is at least `slot`;
    /// returns how to take the change back.
    pub fn apply(&mut self, key: &[u8], slot: u64, value: V) -> (u: Undo<V>)
        requires
            old(self).wf(),
        ensures
            final(self).wf(),
            final(self).view() == applied(old(self).view(), key@, slot, value),
            final(self).restores(u, old(self).view()),
    {
        match self.find(key) {
            Some(i) => {
                let prev_slot = self.entries[i].slot;
                if prev_slot >= slot {
                    return Undo::Kept;
                }
                let prev_value = self.entries[i].value;
                let ghost before = self.contents@;
                self.entries[i].slot = slot;
                self.entries[i].value = value;
                self.contents = Ghost(self.contents@.insert(key@, (slot, value)));
                assert(forall|j: int| 0 <= j < self.entries@.len() && j != i ==> self.entries@[j] == old(self).entries@[j]);
                assert(self.entries@[i as int].key@ == key@);
                assert forall|kk: Seq<u8>| #[trigger] self.contents@.contains_key(kk) implies exists|j: int|
                    0 <= j < self.entries@.len() && (#[trigger] self.entries@[j]).key@ == kk by {
                    let j = choose|j: int| 0 <= j < old(self).entries@.len() && (#[trigger] old(self).entries@[j]).key@ == kk;
                    assert(self.entries@[j].key@ == kk);
                }
                assert(before.insert(key@, (prev_slot, prev_value)) =~= before);
                assert(self.contents@.insert(key@, (prev_slot, prev_value)) =~= before);
                Undo::Replaced { index: i, slot: prev_slot, value: prev_value }
            },
            None => {
                let ghost before = self.contents@;
                let k = copy_range(key, 0, key.len());
                assert(key@.subrange(0, key@.len() as int) =~= key@);
                self.entries.push(Entry { key: k, slot, value });
                self.contents = Ghost(self.contents@.insert(key@, (slot, value)));
                assert(forall|j: int| 0 <= j < old(self).entries@.len() ==> self.entries@[j] == old(self).entries@[j]);
                assert(forall|j: int| 0 <= j < old(self).entries@.len() ==> (#[trigger] old(self).entries@[j]).key@ != key@);
                assert forall|kk: Seq<u8>| #[trigger] self.contents@.contains_key(kk) implies exists|i: int|
                    0 <= i < self.entries@.len() && (#[trigger] self.entries@[i]).key@ == kk by {
                    if kk != key@ {
                        let i = choose|i: int| 0 <= i < old(self).entries@.len() && (#[trigger] old(self).entries@[i]).key@ == kk;
                        assert(self.entries@[i] == old(self).entries@[i]);
                    } else {
                        assert(self.entries@[self.entries@.len() - 1].key@ == kk);
                    }
                }
                assert(self.contents@.remove(key@) =~= before);
                Undo::Added
            },
        }
    }

    /// Takes back the change that `u` records.
    pub(crate) fn undo(&mut self, u: Undo<V>, Ghost(prior): Ghost<Map<Seq<u8>, Stamped<V>>>)
        requires
            old(self).wf(),
            old(self).restores(u, prior),
        ensures
            final(self).wf(),
            final(self).view() == prior,
    {
        match u {
            Undo::Kept => {},
            Undo::Added => {
                let ghost k = self.entries@.last().key@;
                let ghost n = self.entries@.len() - 1;
                self.entries.pop();
                self.contents = Ghost(self.contents@.remove(k));
                assert forall|kk: Seq<u8>| #[trigger] self.contents@.contains_key(kk) implies exists|i: int|
                    0 <= i < self.entries@.len() && (#[trigger] self.entries@[i]).key@ == kk by {
                    let i = choose|i: int| 0 <= i < old(self).entries@.len() && (#[trigger] old(self).entries@[i]).key@ == kk;
                    assert(i != n);
                    assert(self.entries@[i] == old(self).entries@[i]);
                }
                assert forall|i: int| 0 <= i < self.entries@.len() implies {
                    let e = #[trigger] self.entries@[i];
                    self.contents@.contains_key(e.key@) && self.contents@[e.key@] == (e.slot, e.value)
                } by {
                    assert(self.entries@[i] == old(self).entries@[i]);
                    assert(old(self).entries@[n] == old(self).entries@.last());
                }
            },
            Undo::Replaced { index, slot, value } => {
                let ghost k = self.entries@[index as int].key@;
                self.entries[index].slot = slot;
                self.entries[index].value = value;
                self.contents = Ghost(self.contents@.insert(k, (slot, value)));
                assert(forall|j: int| 0 <= j < self.entries@.len() && j != index ==> self.entries@[j] == old(self).entries@[j]);
                assert(self.entries@[index as int].key@ == k);
                assert forall|kk: Seq<u8>| #[trigger] self.contents@.contains_key(kk) implies exists|j: int|
                    0 <= j < self.entries@.len() && (#[trigger] self.entries@[j]).key@ == kk by {
                    if kk != k {
                        let j = choose|j: int| 0 <= j < old(self).entries@.len() && (#[trigger] old(self).entries@[j]).key@ == kk;
                        assert(self.entries@[j].key@ == kk);
                    } else {
                        assert(self.entries@[index as int].key@ == kk);
                    }
                }
            },
        }
    }
}

/// Applying a change from a slot no higher than the stored one leaves the
/// table as it was: redelivered and out-of-order changes are no-ops.
pub proof fn lemma_stale_change_is_noop<V>(
    m: Map<Seq<u8>, Stamped<V>>,
    key: Seq<u8>,
    slot: u64,
    value: V,
)
    requires
        m.contains_key(key),
        slot <= m[key].0,
    ensures
        applied(m, key, slot, value) == m,
{
}

/// After a change at slot `s2`, a change of the same key at a slot no higher
/// than `s2` changes nothing.
pub proof fn lemma_lower_after_higher<V>(
    m: Map<Seq<u8>, Stamped<V>>,
    key: Seq<u8>,
    s1: u64,
    v1: V,
    s2: u64,
    v2: V,
)
    requires
        s1 <= s2,
    ensures
        applied(applied(m, key, s2, v2), key, s1, v1) == applied(m, key, s2, v2),
{
}

/// Applies a sequence of changes `(slot, value)` to one key, in order.
pub open spec fn applied_all<V>(m: Map<Seq<u8>, Stamped<V>>, key: Seq<u8>, changes: Seq<Stamped<V>>) -> Map<
    Seq<u8>,
    Stamped<V>,
>
    decreases changes.len(),
{
    if changes.len() == 0 {
        m
    } else {
        applied(applied_all(m, key, changes.drop_last()), key, changes.last().0, changes.last().1)
    }
}

/// Changes of one key applied in increasing slot order, each above what was
/// stored before them, leave the last change stored.
pub proof fn lemma_increasing_changes_keep_last<V>(
    m: Map<Seq<u8>, Stamped<V>>,
    key: Seq<u8>,
    changes: Seq<Stamped<V>>,
)
    requires
        changes.len() > 0,
        forall|i: int, j: int| 0 <= i < j < changes.len() ==> changes[i].0 < changes[j].0,
        m.contains_key(key) ==> m[key].0 < changes[0].0,
    ensures
        applied_all(m, key, changes).contains_key(key),
        applied_all(m, key, changes)[key] == changes.last(),
    decreases changes.len(),
{
    let init = changes.drop_last();
    if changes.len() > 1 {
        lemma_increasing_changes_keep_last(m, key, init);
        assert(init.last() == changes[changes.len() - 2]);
        assert(init.last().0 < changes.last().0);
    } else {
        assert(init.len() == 0);
        assert(applied_all(m, key, init) == m);
    }
}

} // verus!
