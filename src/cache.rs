use vstd::prelude::*;

use crate::sorted_map::{copy_bytes, keys_sorted, represents, slice_to_vec, SortedMap};

verus! {

/// Pending writes of a cache layer: `Some(v)` for a written value, `None` for a tombstone.
pub type Pending = Map<Seq<u8>, Option<Seq<u8>>>;

/// The view that a layer with pending writes `p` gives over the view `parent`.
pub open spec fn overlay(p: Pending, parent: Map<Seq<u8>, Seq<u8>>) -> Map<Seq<u8>, Seq<u8>> {
    Map::new(
        |k: Seq<u8>|
            if p.contains_key(k) {
                p[k] is Some
            } else {
                parent.contains_key(k)
            },
        |k: Seq<u8>|
            if p.contains_key(k) {
                p[k].unwrap()
            } else {
                parent[k]
            },
    )
}

pub open spec fn as_written(m: Map<Seq<u8>, Seq<u8>>) -> Pending {
    Map::new(|k: Seq<u8>| m.contains_key(k), |k: Seq<u8>| Some(m[k]))
}

pub open spec fn as_deleted(m: Map<Seq<u8>, Seq<u8>>) -> Pending {
    Map::new(|k: Seq<u8>| m.contains_key(k), |k: Seq<u8>| None::<Seq<u8>>)
}

/// The map that a list of entries builds when inserted from first to last.
pub open spec fn seq_to_map(s: Seq<(Seq<u8>, Seq<u8>)>) -> Map<Seq<u8>, Seq<u8>>
    decreases s.len(),
{
    if s.len() == 0 {
        Map::empty()
    } else {
        seq_to_map(s.drop_last()).insert(s.last().0, s.last().1)
    }
}

pub proof fn lemma_seq_to_map(s: Seq<(Seq<u8>, Seq<u8>)>, m: Map<Seq<u8>, Seq<u8>>)
    requires
        keys_sorted(s),
        represents(s, m),
    ensures
        seq_to_map(s) == m,
    decreases s.len(),
{
    if s.len() == 0 {
        assert(m =~= Map::empty()) by {
            assert forall|k: Seq<u8>| !m.contains_key(k) by {
                if m.contains_key(k) {
                    let w = choose|w: int| 0 <= w < s.len() && s[w].0 == k;
                }
            }
        }
    } else {
        let d = s.drop_last();
        let last = s.last();
        let m2 = m.remove(last.0);
        assert(m.contains_key(s[s.len() - 1].0));
        lemma_drop_last_represents(s, m);
        lemma_seq_to_map(d, m2);
        assert(m2.insert(last.0, last.1) =~= m);
    }
}

proof fn lemma_drop_last_represents(s: Seq<(Seq<u8>, Seq<u8>)>, m: Map<Seq<u8>, Seq<u8>>)
    requires
        s.len() > 0,
        keys_sorted(s),
        represents(s, m),
    ensures
        keys_sorted(s.drop_last()),
        represents(s.drop_last(), m.remove(s.last().0)),
{
    let x = s.drop_last();
    let k = s.last().0;
    let m2 = m.remove(k);
    assert forall|i: int, j: int| 0 <= i < j < x.len() implies crate::bytes::lex_lt(
        #[trigger] x[i].0,
        #[trigger] x[j].0,
    ) by {
        assert(x[i] == s[i] && x[j] == s[j]);
    }
    assert forall|i: int| 0 <= i < x.len() implies #[trigger] m2.contains_key(x[i].0) && m2[x[i].0]
        == x[i].1 by {
        assert(x[i] == s[i]);
        assert(m.contains_key(s[i].0));
        assert(crate::bytes::lex_lt(s[i].0, s[s.len() - 1].0));
        if x[i].0 == k {
            crate::bytes::lemma_lex_irreflexive(k);
        }
    }
    assert forall|key: Seq<u8>| #[trigger] m2.contains_key(key) implies exists|i: int|
        0 <= i < x.len() && x[i].0 == key by {
        let w = choose|w: int| 0 <= w < s.len() && s[w].0 == key;
        assert(x[w] == s[w]);
    }
}

/// The last entries of two non-empty key-sorted listings of the same map agree.
proof fn lemma_last_entry_equal(
    a: Seq<(Seq<u8>, Seq<u8>)>,
    b: Seq<(Seq<u8>, Seq<u8>)>,
    m: Map<Seq<u8>, Seq<u8>>,
)
    requires
        a.len() > 0,
        b.len() > 0,
        keys_sorted(a),
        represents(a, m),
        keys_sorted(b),
        represents(b, m),
    ensures
        a.last() == b.last(),
{
    let la = a.last();
    let lb = b.last();
    assert(m.contains_key(a[a.len() - 1].0));
    assert(m.contains_key(b[b.len() - 1].0));
    let wa = choose|w: int| 0 <= w < b.len() && b[w].0 == la.0;
    let wb = choose|w: int| 0 <= w < a.len() && a[w].0 == lb.0;
    if la.0 != lb.0 {
        if wa < b.len() - 1 {
            assert(crate::bytes::lex_lt(b[wa].0, b[b.len() - 1].0));
        }
        if wb < a.len() - 1 {
            assert(crate::bytes::lex_lt(a[wb].0, a[a.len() - 1].0));
        }
        crate::bytes::lemma_lex_asymmetric(la.0, lb.0);
    }
}

/// Two key-sorted listings of the same map are the same listing.
pub proof fn lemma_sorted_listing_unique(
    a: Seq<(Seq<u8>, Seq<u8>)>,
    b: Seq<(Seq<u8>, Seq<u8>)>,
    m: Map<Seq<u8>, Seq<u8>>,
)
    requires
        keys_sorted(a),
        represents(a, m),
        keys_sorted(b),
        represents(b, m),
    ensures
        a == b,
    decreases a.len() + b.len(),
{
    if a.len() == 0 || b.len() == 0 {
        if a.len() > 0 {
            assert(m.contains_key(a[0].0));
            let w = choose|w: int| 0 <= w < b.len() && b[w].0 == a[0].0;
        }
        if b.len() > 0 {
            assert(m.contains_key(b[0].0));
            let w = choose|w: int| 0 <= w < a.len() && a[w].0 == b[0].0;
        }
        assert(a =~= b);
    } else {
        let la = a.last();
        let lb = b.last();
        lemma_last_entry_equal(a, b, m);
        assert(la == lb);
        let k = la.0;
        let m2 = m.remove(k);
        let da = a.drop_last();
        let db = b.drop_last();
        lemma_drop_last_represents(a, m);
        lemma_drop_last_represents(b, m);
        lemma_sorted_listing_unique(da, db, m2);
        assert(a =~= da.push(la));
        assert(b =~= db.push(lb));
    }
}

proof fn lemma_seq_to_map_step(s: Seq<(Seq<u8>, Seq<u8>)>, i: int)
    requires
        0 <= i < s.len(),
    ensures
        seq_to_map(s.subrange(0, i + 1)) == seq_to_map(s.subrange(0, i)).insert(s[i].0, s[i].1),
{
    assert(s.subrange(0, i + 1).drop_last() =~= s.subrange(0, i));
}

/// Reading a layer over a layer over `c` is reading the merge of both layers over `c`.
pub proof fn lemma_overlay_compose(top: Pending, below: Pending, c: Map<Seq<u8>, Seq<u8>>)
    ensures
        overlay(top, overlay(below, c)) == overlay(below.union_prefer_right(top), c),
{
    assert(overlay(top, overlay(below, c)) =~= overlay(below.union_prefer_right(top), c));
}

/// A write of `k` is read back through the layer, whatever the parent holds for `k`.
pub proof fn lemma_set_then_get(
    p: Pending,
    parent: Map<Seq<u8>, Seq<u8>>,
    k: Seq<u8>,
    v: Seq<u8>,
)
    ensures
        overlay(p.insert(k, Some(v)), parent).contains_key(k),
        overlay(p.insert(k, Some(v)), parent)[k] == v,
{
}

/// After a delete of `k`, reading `k` through the layer finds nothing, even where the parent
/// holds a value for `k`.
pub proof fn lemma_delete_then_get(p: Pending, parent: Map<Seq<u8>, Seq<u8>>, k: Seq<u8>)
    ensures
        !overlay(p.insert(k, None), parent).contains_key(k),
{
}

/// Discarding a layer restores its parent's view exactly: `CacheLayer::clear` leaves no
/// pending entry, whatever writes and deletes went through the layer before, and a layer with
/// no pending entry reads as its parent.
pub proof fn lemma_discard_restores(parent: Map<Seq<u8>, Seq<u8>>)
    ensures
        overlay(Pending::empty(), parent) == parent,
{
    assert(overlay(Pending::empty(), parent) =~= parent);
}

/// An overlay that records pending writes and tombstones over a parent view.
pub struct CacheLayer {
    pub writes: SortedMap,
    pub deletes: SortedMap,
}

/// What a cache layer holds for one key.
pub enum Lookup {
    Written(Vec<u8>),
    Deleted,
    Absent,
}

impl CacheLayer {
    pub open spec fn wf(&self) -> bool {
        &&& self.writes.wf()
        &&& self.deletes.wf()
        &&& forall|k: Seq<u8>| !(#[trigger] self.writes@.contains_key(k) && self.deletes@.contains_key(k))
    }

    pub open spec fn pending(&self) -> Pending {
        as_deleted(self.deletes@).union_prefer_right(as_written(self.writes@))
    }

    pub fn new() -> (r: CacheLayer)
        ensures
            r.wf(),
            r.pending() == Pending::empty(),
    {
        let r = CacheLayer { writes: SortedMap::new(), deletes: SortedMap::new() };
        proof {
            assert(r.pending() =~= Pending::empty());
        }
        r
    }

    pub fn is_empty(&self) -> (r: bool)
        requires
            self.wf(),
        ensures
            r <==> self.pending() == Pending::empty(),
    {
        let nw = self.writes.len();
        let nd = self.deletes.len();
        let r = nw == 0 && nd == 0;
        proof {
            if r {
                assert(self.pending() =~= Pending::empty()) by {
                    assert forall|k: Seq<u8>| !self.pending().contains_key(k) by {
                        if self.writes@.contains_key(k) {
                            let w = choose|w: int| 0 <= w < self.writes.seq().len() && self.writes.seq()[w].0 == k;
                        }
                        if self.deletes@.contains_key(k) {
                            let w = choose|w: int| 0 <= w < self.deletes.seq().len() && self.deletes.seq()[w].0 == k;
                        }
                    }
                }
            } else if nw != 0 {
                assert(self.writes@.contains_key(self.writes.seq()[0].0));
                assert(self.pending().contains_key(self.writes.seq()[0].0));
            } else {
                assert(self.deletes@.contains_key(self.deletes.seq()[0].0));
                assert(self.pending().contains_key(self.deletes.seq()[0].0));
            }
        }
        r
    }

    pub fn lookup(&self, k: &[u8]) -> (r: Lookup)
        requires
            self.wf(),
        ensures
            match r {
                Lookup::Written(v) => self.pending().contains_key(k@) && self.pending()[k@]
                    == Some(v@),
                Lookup::Deleted => self.pending().contains_key(k@) && self.pending()[k@]
                    == None::<Seq<u8>>,
                Lookup::Absent => !self.pending().contains_key(k@),
            },
    {
        match self.writes.get(k) {
            Some(v) => Lookup::Written(v),
            None => {
                if self.deletes.get(k).is_some() {
                    Lookup::Deleted
                } else {
                    Lookup::Absent
                }
            },
        }
    }

    pub fn set(&mut self, k: Vec<u8>, v: Vec<u8>)
        requires
            old(self).wf(),
        ensures
            final(self).wf(),
            final(self).pending() == old(self).pending().insert(k@, Some(v@)),
    {
        let ghost old_p = self.pending();
        let _ = self.deletes.remove(k.as_slice());
        self.writes.set(k, v);
        proof {
            assert(self.pending() =~= old_p.insert(k@, Some(v@)));
        }
    }

    pub fn delete(&mut self, k: &[u8])
        requires
            old(self).wf(),
        ensures
            final(self).wf(),
            final(self).pending() == old(self).pending().insert(k@, None),
    {
        let ghost old_p = self.pending();
        let _ = self.writes.remove(k);
        let kc = slice_to_vec(k);
        self.deletes.set(kc, Vec::new());
        proof {
            assert(self.pending() =~= old_p.insert(k@, None));
        }
    }

    /// Drops every pending write and tombstone.
    pub fn clear(&mut self)
        ensures
            final(self).wf(),
            final(self).pending() == Pending::empty(),
    {
        *self = CacheLayer::new();
    }

    /// Writes this layer's pending entries into a plain map.
    pub fn apply_to_map(&self, target: &mut SortedMap)
        requires
            self.wf(),
            old(target).wf(),
        ensures
            final(target).wf(),
            final(target)@ == overlay(self.pending(), old(target)@),
    {
        let ghost base = target@;
        let ghost ws = self.writes.seq();
        let ghost ds = self.deletes.seq();
        let mut i: usize = 0;
        let n = self.writes.entries.len();
        proof {
            assert(ws.subrange(0, 0) =~= Seq::<(Seq<u8>, Seq<u8>)>::empty());
            assert(base.union_prefer_right(seq_to_map(ws.subrange(0, 0))) =~= base);
        }
        while i < n
            invariant
                self.wf(),
                target.wf(),
                n == ws.len(),
                ws == self.writes.seq(),
                i <= n,
                target@ == base.union_prefer_right(seq_to_map(ws.subrange(0, i as int))),
            decreases n - i,
        {
            let k = copy_bytes(&self.writes.entries[i].0);
            let v = copy_bytes(&self.writes.entries[i].1);
            proof {
                lemma_seq_to_map_step(ws, i as int);
            }
            target.set(k, v);
            proof {
                assert(target@ =~= base.union_prefer_right(seq_to_map(ws.subrange(0, i + 1))));
            }
            i = i + 1;
        }
        proof {
            assert(ws.subrange(0, n as int) =~= ws);
            lemma_seq_to_map(ws, self.writes@);
            assert(ds.subrange(0, 0) =~= Seq::<(Seq<u8>, Seq<u8>)>::empty());
            assert(target@.remove_keys(seq_to_map(ds.subrange(0, 0)).dom()) =~= target@);
        }
        let ghost mid = target@;
        let mut j: usize = 0;
        let m = self.deletes.entries.len();
        while j < m
            invariant
                self.wf(),
                target.wf(),
                m == ds.len(),
                ds == self.deletes.seq(),
                j <= m,
                target@ == mid.remove_keys(seq_to_map(ds.subrange(0, j as int)).dom()),
            decreases m - j,
        {
            proof {
                lemma_seq_to_map_step(ds, j as int);
            }
            let _ = target.remove(self.deletes.entries[j].0.as_slice());
            proof {
                assert(target@ =~= mid.remove_keys(seq_to_map(ds.subrange(0, j + 1)).dom()));
            }
            j = j + 1;
        }
        proof {
            assert(ds.subrange(0, m as int) =~= ds);
            lemma_seq_to_map(ds, self.deletes@);
            assert(target@ =~= overlay(self.pending(), base));
        }
    }

    /// Moves this layer's pending entries into the layer below it.
    pub fn apply_to_layer(&self, target: &mut CacheLayer)
        requires
            self.wf(),
            old(target).wf(),
        ensures
            final(target).wf(),
            final(target).pending() == old(target).pending().union_prefer_right(self.pending()),
    {
        let ghost base = target.pending();
        let ghost ws = self.writes.seq();
        let ghost ds = self.deletes.seq();
        let mut i: usize = 0;
        let n = self.writes.entries.len();
        proof {
            assert(ws.subrange(0, 0) =~= Seq::<(Seq<u8>, Seq<u8>)>::empty());
            assert(base.union_prefer_right(as_written(seq_to_map(ws.subrange(0, 0)))) =~= base);
        }
        while i < n
            invariant
                self.wf(),
                target.wf(),
                n == ws.len(),
                ws == self.writes.seq(),
                i <= n,
                target.pending() == base.union_prefer_right(
                    as_written(seq_to_map(ws.subrange(0, i as int))),
                ),
            decreases n - i,
        {
            let k = copy_bytes(&self.writes.entries[i].0);
            let v = copy_bytes(&self.writes.entries[i].1);
            proof {
                lemma_seq_to_map_step(ws, i as int);
            }
            target.set(k, v);
            proof {
                assert(target.pending() =~= base.union_prefer_right(
                    as_written(seq_to_map(ws.subrange(0, i + 1))),
                ));
            }
            i = i + 1;
        }
        proof {
            assert(ws.subrange(0, n as int) =~= ws);
            lemma_seq_to_map(ws, self.writes@);
            assert(ds.subrange(0, 0) =~= Seq::<(Seq<u8>, Seq<u8>)>::empty());
            assert(target.pending().union_prefer_right(as_deleted(seq_to_map(ds.subrange(0, 0))))
                =~= target.pending());
        }
        let ghost mid = target.pending();
        let mut j: usize = 0;
        let m = self.deletes.entries.len();
        while j < m
            invariant
                self.wf(),
                target.wf(),
                m == ds.len(),
                ds == self.deletes.seq(),
                j <= m,
                target.pending() == mid.union_prefer_right(
                    as_deleted(seq_to_map(ds.subrange(0, j as int))),
                ),
            decreases m - j,
        {
            proof {
                lemma_seq_to_map_step(ds, j as int);
            }
            target.delete(self.deletes.entries[j].0.as_slice());
            proof {
                assert(target.pending() =~= mid.union_prefer_right(
                    as_deleted(seq_to_map(ds.subrange(0, j + 1))),
                ));
            }
            j = j + 1;
        }
        proof {
            assert(ds.subrange(0, m as int) =~= ds);
            lemma_seq_to_map(ds, self.deletes@);
            assert(target.pending() =~= base.union_prefer_right(self.pending()));
        }
    }
}

} // verus!
