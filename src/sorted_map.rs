use vstd::prelude::*;

use crate::bytes::{
    compare_bytes, lemma_lex_asymmetric, lemma_lex_irreflexive, lemma_lex_total,
    lemma_lex_transitive, lex_le, lex_lt,
};

verus! {

/// Returns a copy of a byte vector.
pub fn copy_bytes(v: &Vec<u8>) -> (r: Vec<u8>)
    ensures
        r@ == v@,
{
    let r = v.clone();
    proof {
        assert(r@ =~= v@);
    }
    r
}

/// Returns an owned copy of a byte slice.
pub fn slice_to_vec(s: &[u8]) -> (r: Vec<u8>)
    ensures
        r@ == s@,
{
    let mut r: Vec<u8> = Vec::new();
    let mut i: usize = 0;
    while i < s.len()
        invariant
            i <= s.len(),
            r@ == s@.subrange(0, i as int),
        decreases s.len() - i,
    {
        r.push(s[i]);
        proof {
            assert(s@.subrange(0, i + 1) =~= s@.subrange(0, i as int).push(s[i as int]));
        }
        i = i + 1;
    }
    proof {
        assert(s@.subrange(0, i as int) =~= s@);
    }
    r
}

/// The view of one stored entry.
pub open spec fn entry_view(e: (Vec<u8>, Vec<u8>)) -> (Seq<u8>, Seq<u8>) {
    (e.0@, e.1@)
}

pub open spec fn entries_view(v: Seq<(Vec<u8>, Vec<u8>)>) -> Seq<(Seq<u8>, Seq<u8>)> {
    v.map_values(|e: (Vec<u8>, Vec<u8>)| entry_view(e))
}

/// Keys strictly ascend in byte-lexicographic order.
pub open spec fn keys_sorted(s: Seq<(Seq<u8>, Seq<u8>)>) -> bool {
    forall|i: int, j: int| 0 <= i < j < s.len() ==> lex_lt(#[trigger] s[i].0, #[trigger] s[j].0)
}

/// The sequence `s` lists exactly the entries of `m`.
pub open spec fn represents(s: Seq<(Seq<u8>, Seq<u8>)>, m: Map<Seq<u8>, Seq<u8>>) -> bool {
    &&& forall|i: int| 0 <= i < s.len() ==> #[trigger] m.contains_key(s[i].0) && m[s[i].0] == s[i].1
    &&& forall|k: Seq<u8>| #[trigger]
        m.contains_key(k) ==> exists|i: int| 0 <= i < s.len() && s[i].0 == k
}

/// An ordered byte-key map, held as a vector of entries sorted by key.
pub struct SortedMap {
    pub entries: Vec<(Vec<u8>, Vec<u8>)>,
    pub contents: Ghost<Map<Seq<u8>, Seq<u8>>>,
}

impl View for SortedMap {
    type V = Map<Seq<u8>, Seq<u8>>;

    open spec fn view(&self) -> Map<Seq<u8>, Seq<u8>> {
        self.contents@
    }
}

impl SortedMap {
    pub open spec fn seq(&self) -> Seq<(Seq<u8>, Seq<u8>)> {
        entries_view(self.entries@)
    }

    pub open spec fn wf(&self) -> bool {
        keys_sorted(self.seq()) && represents(self.seq(), self@)
    }

    pub fn new() -> (r: SortedMap)
        ensures
            r.wf(),
            r@ == Map::<Seq<u8>, Seq<u8>>::empty(),
    {
        let r = SortedMap { entries: Vec::new(), contents: Ghost(Map::empty()) };
        proof {
            assert(r.seq() =~= Seq::<(Seq<u8>, Seq<u8>)>::empty());
        }
        r
    }

    pub fn len(&self) -> (r: usize)
        ensures
            r == self.seq().len(),
    {
        self.entries.len()
    }

    /// Position of the first entry whose key does not sort before `k`.
    fn find(&self, k: &[u8]) -> (r: (usize, bool))
        requires
            self.wf(),
        ensures
            r.0 <= self.seq().len(),
            forall|j: int| 0 <= j < r.0 ==> lex_lt(#[trigger] self.seq()[j].0, k@),
            r.0 < self.seq().len() ==> lex_le(k@, self.seq()[r.0 as int].0),
            r.1 <==> (r.0 < self.seq().len() && self.seq()[r.0 as int].0 == k@),
            r.1 <==> self@.contains_key(k@),
    {
        let mut i: usize = 0;
        let n = self.entries.len();
        while i < n && compare_bytes(self.entries[i].0.as_slice(), k) == -1
            invariant
                self.wf(),
                n == self.seq().len(),
                i <= n,
                forall|j: int| 0 <= j < i ==> lex_lt(#[trigger] self.seq()[j].0, k@),
            decreases n - i,
        {
            i = i + 1;
        }
        let found = i < n && compare_bytes(self.entries[i].0.as_slice(), k) == 0;
        proof {
            if i < n {
                let ki = self.seq()[i as int].0;
                assert(ki == self.entries@[i as int].0@);
                lemma_lex_total(ki, k@);
            }
            if self@.contains_key(k@) {
                let w = choose|w: int| 0 <= w < self.seq().len() && self.seq()[w].0 == k@;
                if w < i {
                    lemma_lex_irreflexive(k@);
                } else if w > i {
                    assert(lex_lt(self.seq()[i as int].0, self.seq()[w].0));
                    lemma_lex_asymmetric(self.seq()[i as int].0, k@);
                    lemma_lex_irreflexive(k@);
                }
            }
        }
        (i, found)
    }

    pub fn get(&self, k: &[u8]) -> (r: Option<Vec<u8>>)
        requires
            self.wf(),
        ensures
            match r {
                Some(v) => self@.contains_key(k@) && self@[k@] == v@,
                None => !self@.contains_key(k@),
            },
    {
        let (i, found) = self.find(k);
        if found {
            Some(copy_bytes(&self.entries[i].1))
        } else {
            None
        }
    }

    pub fn set(&mut self, k: Vec<u8>, v: Vec<u8>)
        requires
            old(self).wf(),
        ensures
            final(self).wf(),
            final(self)@ == old(self)@.insert(k@, v@),
    {
        let ghost old_seq = self.seq();
        let ghost old_map = self@;
        let ghost kv = k@;
        let ghost vv = v@;
        let (i, found) = self.find(k.as_slice());
        if found {
            self.entries.set(i, (k, v));
            self.contents = Ghost(old_map.insert(kv, vv));
            proof {
                let s = self.seq();
                assert(s =~= old_seq.update(i as int, (kv, vv)));
                assert forall|a: int, b: int| 0 <= a < b < s.len() implies lex_lt(
                    #[trigger] s[a].0,
                    #[trigger] s[b].0,
                ) by {
                    assert(old_seq[a].0 == s[a].0);
                    assert(old_seq[b].0 == s[b].0);
                }
                assert forall|a: int| 0 <= a < s.len() implies #[trigger] self@.contains_key(
                    s[a].0,
                ) && self@[s[a].0] == s[a].1 by {
                    if a != i {
                        if s[a].0 == kv {
                            if a < i {
                                assert(lex_lt(old_seq[a].0, old_seq[i as int].0));
                            } else {
                                assert(lex_lt(old_seq[i as int].0, old_seq[a].0));
                            }
                            lemma_lex_irreflexive(kv);
                        }
                    }
                }
                assert forall|key: Seq<u8>| #[trigger] self@.contains_key(key) implies exists|a: int|
                    0 <= a < s.len() && s[a].0 == key by {
                    if key != kv {
                        let w = choose|w: int| 0 <= w < old_seq.len() && old_seq[w].0 == key;
                        assert(s[w].0 == key);
                    } else {
                        assert(s[i as int].0 == key);
                    }
                }
            }
        } else {
            self.entries.insert(i, (k, v));
            self.contents = Ghost(old_map.insert(kv, vv));
            proof {
                let s = self.seq();
                assert(s =~= old_seq.insert(i as int, (kv, vv)));
                if i < old_seq.len() {
                    lemma_lex_total(kv, old_seq[i as int].0);
                }
                assert forall|a: int, b: int| 0 <= a < b < s.len() implies lex_lt(
                    #[trigger] s[a].0,
                    #[trigger] s[b].0,
                ) by {
                    if b < i {
                        assert(s[a] == old_seq[a] && s[b] == old_seq[b]);
                    } else if b == i {
                        assert(s[a] == old_seq[a]);
                    } else if a > i {
                        assert(s[a] == old_seq[a - 1] && s[b] == old_seq[b - 1]);
                    } else if a == i {
                        assert(s[b] == old_seq[b - 1]);
                        if b - 1 > i {
                            assert(lex_lt(old_seq[i as int].0, old_seq[b - 1].0));
                            lemma_lex_transitive(kv, old_seq[i as int].0, old_seq[b - 1].0);
                        }
                    } else {
                        assert(s[a] == old_seq[a] && s[b] == old_seq[b - 1]);
                        if b - 1 > i {
                            assert(lex_lt(old_seq[i as int].0, old_seq[b - 1].0));
                            lemma_lex_transitive(kv, old_seq[i as int].0, old_seq[b - 1].0);
                        }
                        assert(lex_lt(kv, old_seq[b - 1].0));
                        lemma_lex_transitive(old_seq[a].0, kv, old_seq[b - 1].0);
                    }
                }
                assert forall|a: int| 0 <= a < s.len() implies #[trigger] self@.contains_key(
                    s[a].0,
                ) && self@[s[a].0] == s[a].1 by {
                    if a < i {
                        assert(s[a] == old_seq[a]);
                        assert(old_map.contains_key(old_seq[a].0));
                        if s[a].0 == kv {
                            lemma_lex_irreflexive(kv);
                        }
                    } else if a > i {
                        assert(s[a] == old_seq[a - 1]);
                        assert(old_map.contains_key(old_seq[a - 1].0));
                        if s[a].0 == kv {
                            if a - 1 > i {
                                assert(lex_lt(old_seq[i as int].0, old_seq[a - 1].0));
                                lemma_lex_transitive(kv, old_seq[i as int].0, old_seq[a - 1].0);
                            }
                            lemma_lex_irreflexive(kv);
                        }
                    }
                }
                assert forall|key: Seq<u8>| #[trigger] self@.contains_key(key) implies exists|a: int|
                    0 <= a < s.len() && s[a].0 == key by {
                    if key != kv {
                        let w = choose|w: int| 0 <= w < old_seq.len() && old_seq[w].0 == key;
                        if w < i {
                            assert(s[w].0 == key);
                        } else {
                            assert(s[w + 1].0 == key);
                        }
                    } else {
                        assert(s[i as int].0 == key);
                    }
                }
            }
        }
    }

    pub fn remove(&mut self, k: &[u8]) -> (r: Option<Vec<u8>>)
        requires
            old(self).wf(),
        ensures
            final(self).wf(),
            final(self)@ == old(self)@.remove(k@),
            match r {
                Some(v) => old(self)@.contains_key(k@) && old(self)@[k@] == v@,
                None => !old(self)@.contains_key(k@),
            },
    {
        let ghost old_seq = self.seq();
        let ghost old_map = self@;
        let (i, found) = self.find(k);
        if found {
            let (_key, value) = self.entries.remove(i);
            self.contents = Ghost(old_map.remove(k@));
            proof {
                let s = self.seq();
                assert(s =~= old_seq.remove(i as int));
                assert forall|a: int, b: int| 0 <= a < b < s.len() implies lex_lt(
                    #[trigger] s[a].0,
                    #[trigger] s[b].0,
                ) by {
                    if b < i {
                        assert(s[a] == old_seq[a] && s[b] == old_seq[b]);
                    } else if a < i {
                        assert(s[a] == old_seq[a] && s[b] == old_seq[b + 1]);
                    } else {
                        assert(s[a] == old_seq[a + 1] && s[b] == old_seq[b + 1]);
                    }
                }
                assert forall|a: int| 0 <= a < s.len() implies #[trigger] self@.contains_key(
                    s[a].0,
                ) && self@[s[a].0] == s[a].1 by {
                    let oa = if a < i { a } else { a + 1 };
                    assert(s[a] == old_seq[oa]);
                    assert(old_map.contains_key(old_seq[oa].0));
                    if old_seq[oa].0 == k@ {
                        if oa < i {
                            assert(lex_lt(old_seq[oa].0, old_seq[i as int].0));
                        } else {
                            assert(lex_lt(old_seq[i as int].0, old_seq[oa].0));
                        }
                        lemma_lex_irreflexive(k@);
                    }
                }
                assert forall|key: Seq<u8>| #[trigger] self@.contains_key(key) implies exists|a: int|
                    0 <= a < s.len() && s[a].0 == key by {
                    let w = choose|w: int| 0 <= w < old_seq.len() && old_seq[w].0 == key;
                    if w < i {
                        assert(s[w].0 == key);
                    } else {
                        assert(s[w - 1].0 == key);
                    }
                }
            }
            Some(value)
        } else {
            proof {
                assert(old_map.remove(k@) =~= old_map);
            }
            None
        }
    }
}


/// One end of a key range.
pub enum KeyBound {
    Included(Vec<u8>),
    Excluded(Vec<u8>),
    Unbounded,
}

/// A key selection: keys that start with `prefix` and lie between `start` and `end`.
pub struct KeyRange {
    pub prefix: Vec<u8>,
    pub start: KeyBound,
    pub end: KeyBound,
}

pub open spec fn above_start(b: KeyBound, k: Seq<u8>) -> bool {
    match b {
        KeyBound::Included(s) => lex_le(s@, k),
        KeyBound::Excluded(s) => lex_lt(s@, k),
        KeyBound::Unbounded => true,
    }
}

pub open spec fn below_end(b: KeyBound, k: Seq<u8>) -> bool {
    match b {
        KeyBound::Included(e) => lex_le(k, e@),
        KeyBound::Excluded(e) => lex_lt(k, e@),
        KeyBound::Unbounded => true,
    }
}

pub open spec fn has_prefix(k: Seq<u8>, p: Seq<u8>) -> bool {
    p.len() <= k.len() && k.subrange(0, p.len() as int) == p
}

pub open spec fn in_range(r: KeyRange, k: Seq<u8>) -> bool {
    has_prefix(k, r.prefix@) && above_start(r.start, k) && below_end(r.end, k)
}

/// The entries of `m` whose keys start with `p`.
pub open spec fn restrict_prefix(m: Map<Seq<u8>, Seq<u8>>, p: Seq<u8>) -> Map<Seq<u8>, Seq<u8>> {
    Map::new(|k: Seq<u8>| m.contains_key(k) && has_prefix(k, p), |k: Seq<u8>| m[k])
}

/// The entries of `m` whose keys lie in `r`.
pub open spec fn restrict_range(m: Map<Seq<u8>, Seq<u8>>, r: KeyRange) -> Map<Seq<u8>, Seq<u8>> {
    Map::new(|k: Seq<u8>| m.contains_key(k) && in_range(r, k), |k: Seq<u8>| m[k])
}

pub fn starts_with(k: &[u8], p: &[u8]) -> (r: bool)
    ensures
        r == has_prefix(k@, p@),
{
    if p.len() > k.len() {
        return false;
    }
    let mut i: usize = 0;
    while i < p.len()
        invariant
            p.len() <= k.len(),
            i <= p.len(),
            k@.subrange(0, i as int) == p@.subrange(0, i as int),
        decreases p.len() - i,
    {
        if k[i] != p[i] {
            proof {
                assert(k@.subrange(0, p.len() as int)[i as int] == k[i as int]);
            }
            return false;
        }
        proof {
            assert(k@.subrange(0, i + 1) =~= k@.subrange(0, i as int).push(k[i as int]));
            assert(p@.subrange(0, i + 1) =~= p@.subrange(0, i as int).push(p[i as int]));
        }
        i = i + 1;
    }
    proof {
        assert(p@.subrange(0, i as int) =~= p@);
    }
    true
}

impl KeyRange {
    /// The range of every key that starts with `prefix`.
    pub fn with_prefix(prefix: Vec<u8>) -> (r: KeyRange)
        ensures
            r.prefix@ == prefix@,
            forall|k: Seq<u8>| in_range(r, k) <==> has_prefix(k, prefix@),
    {
        KeyRange { prefix, start: KeyBound::Unbounded, end: KeyBound::Unbounded }
    }

    pub fn contains(&self, k: &[u8]) -> (r: bool)
        ensures
            r == in_range(*self, k@),
    {
        if !starts_with(k, self.prefix.as_slice()) {
            return false;
        }
        let lower = match &self.start {
            KeyBound::Included(s) => compare_bytes(s.as_slice(), k) <= 0,
            KeyBound::Excluded(s) => compare_bytes(s.as_slice(), k) == -1,
            KeyBound::Unbounded => true,
        };
        let upper = match &self.end {
            KeyBound::Included(e) => compare_bytes(k, e.as_slice()) <= 0,
            KeyBound::Excluded(e) => compare_bytes(k, e.as_slice()) == -1,
            KeyBound::Unbounded => true,
        };
        lower && upper
    }
}

impl SortedMap {
    /// The entries whose keys lie in `r`, as a map of their own.
    pub fn select(&self, r: &KeyRange) -> (out: SortedMap)
        requires
            self.wf(),
        ensures
            out.wf(),
            out@ == restrict_range(self@, *r),
    {
        let mut out = SortedMap::new();
        let mut i: usize = 0;
        let n = self.entries.len();
        while i < n
            invariant
                self.wf(),
                out.wf(),
                n == self.seq().len(),
                i <= n,
                forall|k: Seq<u8>| #[trigger]
                    out@.contains_key(k) ==> self@.contains_key(k) && out@[k] == self@[k]
                        && in_range(*r, k),
                forall|j: int|
                    0 <= j < i && in_range(*r, #[trigger] self.seq()[j].0) ==> out@.contains_key(
                        self.seq()[j].0,
                    ),
            decreases n - i,
        {
            let k = &self.entries[i].0;
            if r.contains(k.as_slice()) {
                let kc = copy_bytes(k);
                let vc = copy_bytes(&self.entries[i].1);
                proof {
                    assert(self@.contains_key(self.seq()[i as int].0));
                }
                out.set(kc, vc);
            }
            i = i + 1;
        }
        proof {
            assert(out@ =~= restrict_range(self@, *r));
        }
        out
    }
}

} // verus!
