use vstd::prelude::*;

use crate::sorted_map::{KeyRange, SortedMap};
use crate::store::{lists_range, KVStore, KVStoreMut, StoreLevel};

verus! {

/// Identifies one module's store among those of a multi-store.
#[derive(Clone, Copy, Debug, PartialEq, Eq, Structural)]
pub struct StoreKey {
    pub index: usize,
}

/// One store per module key, each with its block and transaction cache layers.
pub struct MultiStore {
    pub stores: Vec<KVStoreMut>,
}

/// Two multi-stores agree on everything below the transaction caches.
pub open spec fn same_block_state(a: MultiStore, b: MultiStore) -> bool {
    &&& a.stores@.len() == b.stores@.len()
    &&& forall|i: int|
        0 <= i < a.stores@.len() ==> (#[trigger] a.stores@[i]).block == b.stores@[i].block
            && a.stores@[i].committed == b.stores@[i].committed
}

impl MultiStore {
    pub open spec fn wf(&self) -> bool {
        forall|i: int| 0 <= i < self.stores@.len() ==> (#[trigger] self.stores@[i]).wf()
    }

    pub open spec fn has_key(&self, key: StoreKey) -> bool {
        key.index < self.stores@.len()
    }

    pub open spec fn store(&self, key: StoreKey) -> KVStoreMut {
        self.stores@[key.index as int]
    }

    /// Every transaction cache is empty.
    pub open spec fn tx_clean(&self) -> bool {
        forall|i: int|
            0 <= i < self.stores@.len() ==> (#[trigger] self.stores@[i]).tx.pending()
                == Map::<Seq<u8>, Option<Seq<u8>>>::empty()
    }

    /// A multi-store of `n` empty stores, keyed `0..n`.
    pub fn new(n: usize) -> (r: MultiStore)
        ensures
            r.wf(),
            r.tx_clean(),
            r.stores@.len() == n,
            forall|i: int|
                0 <= i < n ==> (#[trigger] r.stores@[i]).committed_view() == Map::<
                    Seq<u8>,
                    Seq<u8>,
                >::empty() && r.stores@[i].block.pending() == Map::<
                    Seq<u8>,
                    Option<Seq<u8>>,
                >::empty(),
    {
        let mut stores: Vec<KVStoreMut> = Vec::new();
        let mut i: usize = 0;
        while i < n
            invariant
                i <= n,
                stores@.len() == i,
                forall|j: int|
                    0 <= j < i ==> (#[trigger] stores@[j]).wf() && stores@[j].committed_view()
                        == Map::<Seq<u8>, Seq<u8>>::empty() && stores@[j].block.pending()
                        == Map::<Seq<u8>, Option<Seq<u8>>>::empty() && stores@[j].tx.pending()
                        == Map::<Seq<u8>, Option<Seq<u8>>>::empty(),
            decreases n - i,
        {
            stores.push(KVStoreMut::new());
            i = i + 1;
        }
        MultiStore { stores }
    }

    pub fn len(&self) -> (r: usize)
        ensures
            r == self.stores@.len(),
    {
        self.stores.len()
    }

    /// A read-only handle on the transaction view of `key`'s store.
    pub fn kv_store(&self, key: StoreKey) -> (r: KVStore<'_>)
        requires
            self.has_key(key),
        ensures
            *r.store == self.store(key),
            r.level == StoreLevel::Tx,
    {
        self.stores[key.index].to_immutable()
    }

    /// The store of `key`, for writing directly.
    pub fn kv_store_mut(&mut self, key: StoreKey) -> (r: &mut KVStoreMut)
        requires
            old(self).has_key(key),
        ensures
            *r == old(self).store(key),
            final(self).stores@ == old(self).stores@.update(key.index as int, *final(r)),
    {
        &mut self.stores[key.index]
    }

    /// A read-only handle on the committed entries of `key`'s store.
    pub fn committed_store(&self, key: StoreKey) -> (r: KVStore<'_>)
        requires
            self.has_key(key),
        ensures
            *r.store == self.store(key),
            r.level == StoreLevel::Committed,
    {
        KVStore { store: &self.stores[key.index], level: StoreLevel::Committed }
    }

    pub fn get(&self, key: StoreKey, k: &[u8]) -> (r: Option<Vec<u8>>)
        requires
            self.wf(),
            self.has_key(key),
        ensures
            match r {
                Some(v) => self.store(key).tx_view().contains_key(k@) && self.store(
                    key,
                ).tx_view()[k@] == v@,
                None => !self.store(key).tx_view().contains_key(k@),
            },
    {
        self.stores[key.index].get(k)
    }

    pub fn set(&mut self, key: StoreKey, k: Vec<u8>, v: Vec<u8>)
        requires
            old(self).wf(),
            old(self).has_key(key),
        ensures
            final(self).wf(),
            final(self).stores@.len() == old(self).stores@.len(),
            forall|i: int|
                0 <= i < old(self).stores@.len() && i != key.index ==> #[trigger] final(self).stores@[i] == old(self).stores@[i],
            final(self).store(key).tx_view() == old(self).store(key).tx_view().insert(k@, v@),
            final(self).store(key).tx.pending() == old(self).store(key).tx.pending().insert(
                k@,
                Some(v@),
            ),
            same_block_state(*final(self), *old(self)),
    {
        let mut s = self.stores.remove(key.index);
        s.set(k, v);
        self.stores.insert(key.index, s);
        proof {
            assert forall|i: int|
                0 <= i < old(self).stores@.len() && i != key.index implies #[trigger] self.stores@[i]
                == old(self).stores@[i] by {}
        }
    }

    pub fn delete(&mut self, key: StoreKey, k: &[u8]) -> (r: Option<Vec<u8>>)
        requires
            old(self).wf(),
            old(self).has_key(key),
        ensures
            final(self).wf(),
            final(self).stores@.len() == old(self).stores@.len(),
            forall|i: int|
                0 <= i < old(self).stores@.len() && i != key.index ==> #[trigger] final(self).stores@[i] == old(self).stores@[i],
            final(self).store(key).tx_view() == old(self).store(key).tx_view().remove(k@),
            final(self).store(key).tx.pending() == old(self).store(key).tx.pending().insert(
                k@,
                None,
            ),
            same_block_state(*final(self), *old(self)),
            match r {
                Some(v) => old(self).store(key).tx_view().contains_key(k@) && old(self).store(
                    key,
                ).tx_view()[k@] == v@,
                None => !old(self).store(key).tx_view().contains_key(k@),
            },
    {
        let mut s = self.stores.remove(key.index);
        let r = s.delete(k);
        self.stores.insert(key.index, s);
        r
    }

    /// Entries of `key`'s transaction view whose keys lie in `r`, in ascending key order.
    pub fn range(&self, key: StoreKey, r: &KeyRange) -> (out: Vec<(Vec<u8>, Vec<u8>)>)
        requires
            self.wf(),
            self.has_key(key),
        ensures
            lists_range(out@, self.store(key).tx_view(), *r),
    {
        self.stores[key.index].range(r)
    }

    /// Discards the transaction cache of every store.
    pub fn tx_caches_clear(&mut self)
        requires
            old(self).wf(),
        ensures
            final(self).wf(),
            final(self).tx_clean(),
            same_block_state(*final(self), *old(self)),
    {
        let n = self.stores.len();
        let mut i: usize = 0;
        while i < n
            invariant
                self.wf(),
                n == self.stores@.len(),
                i <= n,
                same_block_state(*self, *old(self)),
                forall|j: int|
                    0 <= j < i ==> (#[trigger] self.stores@[j]).tx.pending() == Map::<
                        Seq<u8>,
                        Option<Seq<u8>>,
                    >::empty(),
            decreases n - i,
        {
            let mut s = self.stores.remove(i);
            s.tx_cache_clear();
            self.stores.insert(i, s);
            i = i + 1;
        }
    }

    /// Merges the transaction cache of every store into its block cache.
    pub fn tx_caches_commit(&mut self)
        requires
            old(self).wf(),
        ensures
            final(self).wf(),
            final(self).tx_clean(),
            final(self).stores@.len() == old(self).stores@.len(),
            forall|i: int|
                0 <= i < old(self).stores@.len() ==> (#[trigger] final(self).stores@[i]).block_view()
                    == old(self).stores@[i].tx_view() && final(self).stores@[i].committed == old(self).stores@[i].committed,
    {
        let n = self.stores.len();
        let mut i: usize = 0;
        while i < n
            invariant
                self.wf(),
                n == self.stores@.len(),
                n == old(self).stores@.len(),
                i <= n,
                forall|j: int|
                    0 <= j < i ==> (#[trigger] self.stores@[j]).tx.pending() == Map::<
                        Seq<u8>,
                        Option<Seq<u8>>,
                    >::empty() && self.stores@[j].block_view() == old(self).stores@[j].tx_view()
                        && self.stores@[j].committed == old(self).stores@[j].committed,
                forall|j: int| i <= j < n ==> #[trigger] self.stores@[j] == old(self).stores@[j],
            decreases n - i,
        {
            let mut s = self.stores.remove(i);
            s.tx_cache_commit();
            self.stores.insert(i, s);
            i = i + 1;
        }
    }

    /// Writes the block cache of every store into its committed entries.
    pub fn commit(&mut self)
        requires
            old(self).wf(),
        ensures
            final(self).wf(),
            final(self).tx_clean(),
            final(self).stores@.len() == old(self).stores@.len(),
            forall|i: int|
                0 <= i < old(self).stores@.len() ==> (#[trigger] final(self).stores@[i]).committed_view() == old(self).stores@[i].block_view()
                    && final(self).stores@[i].block.pending() == Map::<
                    Seq<u8>,
                    Option<Seq<u8>>,
                >::empty(),
    {
        let n = self.stores.len();
        let mut i: usize = 0;
        while i < n
            invariant
                self.wf(),
                n == self.stores@.len(),
                n == old(self).stores@.len(),
                i <= n,
                forall|j: int|
                    0 <= j < i ==> (#[trigger] self.stores@[j]).tx.pending() == Map::<
                        Seq<u8>,
                        Option<Seq<u8>>,
                    >::empty() && self.stores@[j].committed_view() == old(self).stores@[j].block_view() && self.stores@[j].block.pending() == Map::<
                        Seq<u8>,
                        Option<Seq<u8>>,
                    >::empty(),
                forall|j: int| i <= j < n ==> #[trigger] self.stores@[j] == old(self).stores@[j],
            decreases n - i,
        {
            let mut s = self.stores.remove(i);
            s.block_cache_commit();
            self.stores.insert(i, s);
            i = i + 1;
        }
    }
}

/// A copy of every store's committed entries, taken at one moment: reads from it are not
/// affected by the block that executes after it was taken.
pub struct CommittedSnapshot {
    pub stores: Vec<SortedMap>,
}

impl CommittedSnapshot {
    pub open spec fn wf(&self) -> bool {
        forall|i: int| 0 <= i < self.stores@.len() ==> (#[trigger] self.stores@[i]).wf()
    }

    pub fn get(&self, key: StoreKey, k: &[u8]) -> (r: Option<Vec<u8>>)
        requires
            self.wf(),
            key.index < self.stores@.len(),
        ensures
            match r {
                Some(v) => self.stores@[key.index as int]@.contains_key(k@)
                    && self.stores@[key.index as int]@[k@] == v@,
                None => !self.stores@[key.index as int]@.contains_key(k@),
            },
    {
        self.stores[key.index].get(k)
    }

    /// Entries of `key`'s snapshot whose keys lie in `r`, in ascending key order.
    pub fn range(&self, key: StoreKey, r: &KeyRange) -> (out: Vec<(Vec<u8>, Vec<u8>)>)
        requires
            self.wf(),
            key.index < self.stores@.len(),
        ensures
            lists_range(out@, self.stores@[key.index as int]@, *r),
    {
        self.stores[key.index].select(r).entries
    }
}

impl MultiStore {
    /// Copies the committed entries of every store.
    pub fn snapshot(&self) -> (r: CommittedSnapshot)
        requires
            self.wf(),
        ensures
            r.wf(),
            r.stores@.len() == self.stores@.len(),
            forall|i: int|
                0 <= i < self.stores@.len() ==> (#[trigger] r.stores@[i])@
                    == self.stores@[i].committed_view(),
    {
        let mut stores: Vec<SortedMap> = Vec::new();
        let mut i: usize = 0;
        while i < self.stores.len()
            invariant
                self.wf(),
                i <= self.stores@.len(),
                stores@.len() == i,
                forall|j: int|
                    0 <= j < i ==> (#[trigger] stores@[j]).wf() && stores@[j]@
                        == self.stores@[j].committed_view(),
            decreases self.stores@.len() - i,
        {
            stores.push(self.stores[i].committed.duplicate());
            i = i + 1;
        }
        CommittedSnapshot { stores }
    }
}

} // verus!
