//! The data namespace, modelled as an association list with unique keys and
//! viewed as a map from byte-string keys to byte-string values.  The applier
//! is its only writer; the local-read bypass is its only other reader.

use vstd::prelude::*;
use vstd::slice::slice_to_vec;

verus! {

/// The map that a sequence of key-value pairs denotes: pairs are inserted in
/// order, so a later pair for the same key wins.
pub open spec fn pairs_map(s: Seq<(Vec<u8>, Vec<u8>)>) -> Map<Seq<u8>, Seq<u8>>
    decreases s.len(),
{
    if s.len() == 0 {
        Map::empty()
    } else {
        pairs_map(s.drop_last()).insert(s.last().0@, s.last().1@)
    }
}

/// No two pairs share a key.
pub open spec fn unique_keys(s: Seq<(Vec<u8>, Vec<u8>)>) -> bool {
    forall|i: int, j: int| 0 <= i < j < s.len() ==> s[i].0@ != s[j].0@
}

/// Compare two byte strings.
pub fn bytes_eq(a: &[u8], b: &[u8]) -> (r: bool)
    ensures
        r == (a@ == b@),
{
    if a.len() != b.len() {
        return false;
    }
    let n = a.len();
    let mut i: usize = 0;
    while i < n
        invariant
            n == a@.len() == b@.len(),
            i <= n,
            forall|j: int| 0 <= j < i ==> a@[j] == b@[j],
        decreases n - i,
    {
        if a[i] != b[i] {
            return false;
        }
        i = i + 1;
    }
    proof {
        assert(a@ =~= b@);
    }
    true
}

/// Membership and value of `pairs_map` in terms of the underlying pairs,
/// given unique keys.
proof fn lemma_pairs_map_index(s: Seq<(Vec<u8>, Vec<u8>)>, k: Seq<u8>)
    requires
        unique_keys(s),
    ensures
        pairs_map(s).contains_key(k) <==> exists|i: int| 0 <= i < s.len() && s[i].0@ == k,
        forall|i: int| 0 <= i < s.len() && s[i].0@ == k ==> pairs_map(s)[k] == s[i].1@,
    decreases s.len(),
{
    if s.len() > 0 {
        lemma_pairs_map_index(s.drop_last(), k);
        if s.last().0@ == k {
            assert(s[s.len() - 1].0@ == k);
        } else {
            assert(forall|i: int|
                0 <= i < s.len() && s[i].0@ == k ==> 0 <= i < s.drop_last().len()
                    && s.drop_last()[i].0@ == k);
        }
    }
}

/// Removing the pair that holds key `k` removes `k` from the denoted map.
proof fn lemma_pairs_map_remove(s: Seq<(Vec<u8>, Vec<u8>)>, i: int, k: Seq<u8>)
    requires
        unique_keys(s),
        0 <= i < s.len(),
        s[i].0@ == k,
    ensures
        pairs_map(s.remove(i)) == pairs_map(s).remove(k),
    decreases s.len(),
{
    let dl = s.drop_last();
    assert(unique_keys(dl));
    if i == s.len() - 1 {
        assert(s.remove(i) =~= dl);
        lemma_pairs_map_index(dl, k);
        assert(forall|j: int| 0 <= j < dl.len() ==> dl[j].0@ != k);
        assert(!pairs_map(dl).contains_key(k));
        assert(pairs_map(dl) =~= pairs_map(dl).insert(k, s.last().1@).remove(k));
    } else {
        lemma_pairs_map_remove(dl, i, k);
        assert(s.remove(i).drop_last() =~= dl.remove(i));
        assert(s.remove(i).last() == s.last());
        assert(s.last().0@ != k);
        assert(pairs_map(s.remove(i)) == pairs_map(dl.remove(i)).insert(
            s.last().0@,
            s.last().1@,
        ));
        assert(pairs_map(dl).remove(k).insert(s.last().0@, s.last().1@) =~= pairs_map(dl).insert(
            s.last().0@,
            s.last().1@,
        ).remove(k));
    }
}

/// The data namespace: a store from byte-string keys to byte-string values.
pub struct KvStore {
    pairs: Vec<(Vec<u8>, Vec<u8>)>,
}

impl View for KvStore {
    type V = Map<Seq<u8>, Seq<u8>>;

    closed spec fn view(&self) -> Map<Seq<u8>, Seq<u8>> {
        pairs_map(self.pairs@)
    }
}

impl KvStore {
    #[verifier::type_invariant]
    spec fn wf(self) -> bool {
        unique_keys(self.pairs@)
    }

    /// An empty store.
    pub fn new() -> (r: Self)
        ensures
            r@ == Map::<Seq<u8>, Seq<u8>>::empty(),
    {
        KvStore { pairs: Vec::new() }
    }

    /// The index of the pair holding `k`, if any.
    fn find(&self, k: &[u8]) -> (r: Option<usize>)
        ensures
            match r {
                Some(i) => i < self.pairs@.len() && self.pairs@[i as int].0@ == k@,
                None => forall|i: int| 0 <= i < self.pairs@.len() ==> self.pairs@[i].0@ != k@,
            },
    {
        let n = self.pairs.len();
        let mut i: usize = 0;
        while i < n
            invariant
                n == self.pairs@.len(),
                i <= n,
                forall|j: int| 0 <= j < i ==> self.pairs@[j].0@ != k@,
            decreases n - i,
        {
            if bytes_eq(self.pairs[i].0.as_slice(), k) {
                return Some(i);
            }
            i = i + 1;
        }
        None
    }

    /// Read the value stored under `k`, if any.
    pub fn get(&self, k: &[u8]) -> (r: Option<Vec<u8>>)
        ensures
            match r {
                Some(v) => self@.contains_key(k@) && v@ == self@[k@],
                None => !self@.contains_key(k@),
            },
    {
        proof {
            use_type_invariant(&*self);
            lemma_pairs_map_index(self.pairs@, k@);
        }
        match self.find(k) {
            Some(i) => Some(slice_to_vec(self.pairs[i].1.as_slice())),
            None => None,
        }
    }

    /// Remove the pair holding `k`, if any; afterwards no pair holds `k`.
    fn remove_key(&mut self, k: &[u8])
        ensures
            final(self)@ == old(self)@.remove(k@),
            forall|i: int|
                0 <= i < final(self).pairs@.len() ==> final(self).pairs@[i].0@ != k@,
    {
        proof {
            use_type_invariant(&*self);
            lemma_pairs_map_index(self.pairs@, k@);
        }
        match self.find(k) {
            Some(i) => {
                let ghost s = self.pairs@;
                let mut pairs: Vec<(Vec<u8>, Vec<u8>)> = Vec::new();
                core::mem::swap(&mut pairs, &mut self.pairs);
                pairs.remove(i);
                proof {
                    lemma_pairs_map_remove(s, i as int, k@);
                    assert forall|a: int, b: int| 0 <= a < b < s.remove(i as int).len() implies s
                        .remove(i as int)[a].0@ != s.remove(i as int)[b].0@ by {
                        let a0 = if a < i { a } else { a + 1 };
                        let b0 = if b < i { b } else { b + 1 };
                        assert(s.remove(i as int)[a] == s[a0]);
                        assert(s.remove(i as int)[b] == s[b0]);
                    }
                    assert forall|j: int| 0 <= j < s.remove(i as int).len() implies s.remove(
                        i as int,
                    )[j].0@ != k@ by {
                        let j0 = if j < i { j } else { j + 1 };
                        assert(s.remove(i as int)[j] == s[j0]);
                    }
                }
                core::mem::swap(&mut pairs, &mut self.pairs);
            },
            None => {
                proof {
                    assert(!pairs_map(self.pairs@).contains_key(k@));
                    assert(pairs_map(self.pairs@).remove(k@) =~= pairs_map(self.pairs@));
                }
            },
        }
    }

    /// Upsert: store `v` under `k`.
    pub fn put(&mut self, k: Vec<u8>, v: Vec<u8>)
        ensures
            final(self)@ == old(self)@.insert(k@, v@),
    {
        self.remove_key(k.as_slice());
        proof {
            use_type_invariant(&*self);
        }
        let ghost mid = self.pairs@;
        let mut pairs: Vec<(Vec<u8>, Vec<u8>)> = Vec::new();
        core::mem::swap(&mut pairs, &mut self.pairs);
        let ghost kk = k@;
        pairs.push((k, v));
        proof {
            assert(pairs@.drop_last() =~= mid);
            assert(forall|i: int| 0 <= i < mid.len() ==> mid[i].0@ != kk);
            assert(unique_keys(pairs@));
            assert(old(self)@.remove(kk).insert(kk, pairs@.last().1@) =~= old(self)@.insert(
                kk,
                pairs@.last().1@,
            ));
        }
        core::mem::swap(&mut pairs, &mut self.pairs);
    }

    /// Remove the value stored under `k`, if any.
    pub fn delete(&mut self, k: &[u8])
        ensures
            final(self)@ == old(self)@.remove(k@),
    {
        self.remove_key(k);
    }

    /// Replace the whole contents with the given pairs, as a snapshot
    /// installation does; a later pair for the same key wins.
    pub fn install(&mut self, pairs: &Vec<(Vec<u8>, Vec<u8>)>)
        ensures
            final(self)@ == pairs_map(pairs@),
    {
        let mut fresh = KvStore::new();
        core::mem::swap(&mut fresh, self);
        let n = pairs.len();
        let mut i: usize = 0;
        while i < n
            invariant
                n == pairs@.len(),
                i <= n,
                self@ == pairs_map(pairs@.take(i as int)),
            decreases n - i,
        {
            let k = slice_to_vec(pairs[i].0.as_slice());
            let v = slice_to_vec(pairs[i].1.as_slice());
            self.put(k, v);
            proof {
                assert(pairs@.take(i + 1).drop_last() =~= pairs@.take(i as int));
                assert(pairs@.take(i + 1).last() == pairs@[i as int]);
            }
            i = i + 1;
        }
        proof {
            assert(pairs@.take(n as int) =~= pairs@);
        }
    }
}

} // verus!
