use vstd::prelude::*;

use crate::cache::{overlay, CacheLayer, Lookup};
use crate::sorted_map::{
    copy_bytes, entries_view, keys_sorted, represents, restrict_range, KeyRange, SortedMap,
};

verus! {

/// Which view of a store a read-only handle reads.
#[derive(Clone, Copy, Debug, PartialEq, Eq, Structural)]
pub enum StoreLevel {
    /// The durable, committed entries.
    Committed,
    /// The committed entries under the block cache.
    Block,
    /// The block view under the transaction cache.
    Tx,
}

/// The entries that a range read returns: sorted by key, and exactly those of `m` in `r`.
pub open spec fn lists_range(
    out: Seq<(Vec<u8>, Vec<u8>)>,
    m: Map<Seq<u8>, Seq<u8>>,
    r: KeyRange,
) -> bool {
    keys_sorted(entries_view(out)) && represents(entries_view(out), restrict_range(m, r))
}

/// A range read lists the same entries in the same order whenever the view holds the same
/// entries, whatever order they were written in and whichever layers hold them.
pub proof fn lemma_range_determined(
    a: Seq<(Vec<u8>, Vec<u8>)>,
    b: Seq<(Vec<u8>, Vec<u8>)>,
    m: Map<Seq<u8>, Seq<u8>>,
    r: KeyRange,
)
    requires
        lists_range(a, m, r),
        lists_range(b, m, r),
    ensures
        entries_view(a) == entries_view(b),
{
    crate::cache::lemma_sorted_listing_unique(
        entries_view(a),
        entries_view(b),
        restrict_range(m, r),
    );
}

impl SortedMap {
    pub fn duplicate(&self) -> (r: SortedMap)
        requires
            self.wf(),
        ensures
            r.wf(),
            r@ == self@,
    {
        let mut entries: Vec<(Vec<u8>, Vec<u8>)> = Vec::new();
        let mut i: usize = 0;
        let n = self.entries.len();
        while i < n
            invariant
                n == self.entries@.len(),
                i <= n,
                entries@.len() == i,
                entries_view(entries@) == self.seq().subrange(0, i as int),
            decreases n - i,
        {
            let k = copy_bytes(&self.entries[i].0);
            let v = copy_bytes(&self.entries[i].1);
            let ghost before = entries@;
            entries.push((k, v));
            proof {
                assert(entries@ == before.push((k, v)));
                assert forall|j: int| 0 <= j < i + 1 implies entries_view(entries@)[j]
                    == self.seq().subrange(0, i + 1)[j] by {
                    if j < i {
                        assert(entries@[j] == before[j]);
                        assert(entries_view(before)[j] == self.seq().subrange(0, i as int)[j]);
                    }
                }
                assert(entries_view(entries@) =~= self.seq().subrange(0, i + 1));
            }
            i = i + 1;
        }
        proof {
            assert(self.seq().subrange(0, n as int) =~= self.seq());
        }
        SortedMap { entries, contents: Ghost(self@) }
    }
}

/// A module's store: its committed entries, with a block cache layer over them and a
/// transaction cache layer over that.
pub struct KVStoreMut {
    pub committed: SortedMap,
    pub block: CacheLayer,
    pub tx: CacheLayer,
}

impl KVStoreMut {
    pub open spec fn wf(&self) -> bool {
        self.committed.wf() && self.block.wf() && self.tx.wf()
    }

    pub open spec fn committed_view(&self) -> Map<Seq<u8>, Seq<u8>> {
        self.committed@
    }

    pub open spec fn block_view(&self) -> Map<Seq<u8>, Seq<u8>> {
        overlay(self.block.pending(), self.committed@)
    }

    pub open spec fn tx_view(&self) -> Map<Seq<u8>, Seq<u8>> {
        overlay(self.tx.pending(), self.block_view())
    }

    pub open spec fn view_at(&self, level: StoreLevel) -> Map<Seq<u8>, Seq<u8>> {
        match level {
            StoreLevel::Committed => self.committed_view(),
            StoreLevel::Block => self.block_view(),
            StoreLevel::Tx => self.tx_view(),
        }
    }

    /// A store with no entries and empty caches.
    pub fn new() -> (r: KVStoreMut)
        ensures
            r.wf(),
            r.committed_view() == Map::<Seq<u8>, Seq<u8>>::empty(),
            r.block.pending() == Map::<Seq<u8>, Option<Seq<u8>>>::empty(),
            r.tx.pending() == Map::<Seq<u8>, Option<Seq<u8>>>::empty(),
    {
        KVStoreMut { committed: SortedMap::new(), block: CacheLayer::new(), tx: CacheLayer::new() }
    }

    /// Reads `k` in the view at `level`.
    pub fn get_at(&self, level: StoreLevel, k: &[u8]) -> (r: Option<Vec<u8>>)
        requires
            self.wf(),
        ensures
            match r {
                Some(v) => self.view_at(level).contains_key(k@) && self.view_at(level)[k@] == v@,
                None => !self.view_at(level).contains_key(k@),
            },
    {
        if level == StoreLevel::Tx {
            match self.tx.lookup(k) {
                Lookup::Written(v) => return Some(v),
                Lookup::Deleted => return None,
                Lookup::Absent => {},
            }
        }
        if level != StoreLevel::Committed {
            match self.block.lookup(k) {
                Lookup::Written(v) => return Some(v),
                Lookup::Deleted => return None,
                Lookup::Absent => {},
            }
        }
        self.committed.get(k)
    }

    /// Every entry of the view at `level` whose key lies in `r`, in ascending key order.
    pub fn range_at(&self, level: StoreLevel, r: &KeyRange) -> (out: Vec<(Vec<u8>, Vec<u8>)>)
        requires
            self.wf(),
        ensures
            lists_range(out@, self.view_at(level), *r),
    {
        let mut m = self.committed.duplicate();
        if level != StoreLevel::Committed {
            self.block.apply_to_map(&mut m);
        }
        if level == StoreLevel::Tx {
            self.tx.apply_to_map(&mut m);
        }
        let sel = m.select(r);
        sel.entries
    }

    /// Reads `k` in the transaction view.
    pub fn get(&self, k: &[u8]) -> (r: Option<Vec<u8>>)
        requires
            self.wf(),
        ensures
            match r {
                Some(v) => self.tx_view().contains_key(k@) && self.tx_view()[k@] == v@,
                None => !self.tx_view().contains_key(k@),
            },
    {
        self.get_at(StoreLevel::Tx, k)
    }

    /// Writes `k` in the transaction cache.
    pub fn set(&mut self, k: Vec<u8>, v: Vec<u8>)
        requires
            old(self).wf(),
        ensures
            final(self).wf(),
            final(self).tx_view() == old(self).tx_view().insert(k@, v@),
            final(self).tx.pending() == old(self).tx.pending().insert(k@, Some(v@)),
            final(self).block == old(self).block,
            final(self).committed == old(self).committed,
    {
        let ghost kv = k@;
        let ghost vv = v@;
        self.tx.set(k, v);
        proof {
            assert(self.tx_view() =~= old(self).tx_view().insert(kv, vv));
        }
    }

    /// Deletes `k` in the transaction cache, returning the value it had.
    pub fn delete(&mut self, k: &[u8]) -> (r: Option<Vec<u8>>)
        requires
            old(self).wf(),
        ensures
            final(self).wf(),
            final(self).tx_view() == old(self).tx_view().remove(k@),
            final(self).tx.pending() == old(self).tx.pending().insert(k@, None),
            final(self).block == old(self).block,
            final(self).committed == old(self).committed,
            match r {
                Some(v) => old(self).tx_view().contains_key(k@) && old(self).tx_view()[k@] == v@,
                None => !old(self).tx_view().contains_key(k@),
            },
    {
        let prev = self.get(k);
        self.tx.delete(k);
        proof {
            assert(self.tx_view() =~= old(self).tx_view().remove(k@));
        }
        prev
    }

    /// Every entry of the transaction view whose key lies in `r`, in ascending key order.
    pub fn range(&self, r: &KeyRange) -> (out: Vec<(Vec<u8>, Vec<u8>)>)
        requires
            self.wf(),
        ensures
            lists_range(out@, self.tx_view(), *r),
    {
        self.range_at(StoreLevel::Tx, r)
    }

    /// A read-only handle on the transaction view.
    pub fn to_immutable(&self) -> (r: KVStore<'_>)
        ensures
            r.store == self,
            r.level == StoreLevel::Tx,
    {
        KVStore { store: self, level: StoreLevel::Tx }
    }

    /// Drops the transaction cache.
    pub fn tx_cache_clear(&mut self)
        requires
            old(self).wf(),
        ensures
            final(self).wf(),
            final(self).tx.pending() == Map::<Seq<u8>, Option<Seq<u8>>>::empty(),
            final(self).tx_view() == old(self).block_view(),
            final(self).block == old(self).block,
            final(self).committed == old(self).committed,
    {
        self.tx.clear();
        proof {
            assert(self.tx_view() =~= self.block_view());
        }
    }

    /// Merges the transaction cache into the block cache and empties it.
    pub fn tx_cache_commit(&mut self)
        requires
            old(self).wf(),
        ensures
            final(self).wf(),
            final(self).tx.pending() == Map::<Seq<u8>, Option<Seq<u8>>>::empty(),
            final(self).block.pending() == old(self).block.pending().union_prefer_right(
                old(self).tx.pending(),
            ),
            final(self).block_view() == old(self).tx_view(),
            final(self).committed == old(self).committed,
    {
        self.tx.apply_to_layer(&mut self.block);
        self.tx.clear();
        proof {
            crate::cache::lemma_overlay_compose(
                old(self).tx.pending(),
                old(self).block.pending(),
                self.committed@,
            );
        }
    }

    /// Writes the block cache into the committed entries and empties both caches.
    pub fn block_cache_commit(&mut self)
        requires
            old(self).wf(),
        ensures
            final(self).wf(),
            final(self).committed_view() == old(self).block_view(),
            final(self).block.pending() == Map::<Seq<u8>, Option<Seq<u8>>>::empty(),
            final(self).tx.pending() == Map::<Seq<u8>, Option<Seq<u8>>>::empty(),
    {
        self.block.apply_to_map(&mut self.committed);
        self.block.clear();
        self.tx.clear();
    }
}

/// A read-only handle on one view of a module's store.
pub struct KVStore<'a> {
    pub store: &'a KVStoreMut,
    pub level: StoreLevel,
}

impl<'a> KVStore<'a> {
    pub open spec fn view(&self) -> Map<Seq<u8>, Seq<u8>> {
        self.store.view_at(self.level)
    }

    pub fn get(&self, k: &[u8]) -> (r: Option<Vec<u8>>)
        requires
            self.store.wf(),
        ensures
            match r {
                Some(v) => self.view().contains_key(k@) && self.view()[k@] == v@,
                None => !self.view().contains_key(k@),
            },
    {
        self.store.get_at(self.level, k)
    }

    /// Every entry of this view whose key lies in `range`, in ascending key order.
    pub fn range(&self, range: &KeyRange) -> (out: Vec<(Vec<u8>, Vec<u8>)>)
        requires
            self.store.wf(),
        ensures
            lists_range(out@, self.view(), *range),
    {
        self.store.range_at(self.level, range)
    }
}

} // verus!
