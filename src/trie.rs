use vstd::prelude::*;

use crate::bytes::{bytes_eq, copy_bytes, starts_with};

verus! {

/// Caching strategy of the underlying trie; it affects speed, never contents.
#[derive(Clone, Copy, Debug, PartialEq, Eq, Structural)]
pub enum TrieCacheMode {
    CachingShard,
    CachingChunk,
}

/// A transactional key-value view over raw (physical) keys.
///
/// Mutations are buffered here until the host commits them.
pub struct TrieUpdate {
    keys: Vec<Vec<u8>>,
    values: Vec<Vec<u8>>,
    contents: Ghost<Map<Seq<u8>, Seq<u8>>>,
    cache_mode: TrieCacheMode,
    touched_nodes: u64,
}

impl TrieUpdate {
    /// What the view holds: raw key to value.
    pub closed spec fn view(&self) -> Map<Seq<u8>, Seq<u8>> {
        self.contents@
    }

    pub closed spec fn spec_cache_mode(&self) -> TrieCacheMode {
        self.cache_mode
    }

    pub closed spec fn spec_touched_nodes(&self) -> u64 {
        self.touched_nodes
    }

    /// Keys are unique and the ghost map is exactly what the two vectors hold.
    pub closed spec fn wf(&self) -> bool {
        &&& self.keys@.len() == self.values@.len()
        &&& forall|i: int, j: int|
            0 <= i < self.keys@.len() && 0 <= j < self.keys@.len() && i != j
                ==> self.keys@[i]@ != self.keys@[j]@
        &&& forall|i: int|
            0 <= i < self.keys@.len() ==> #[trigger] self.contents@.contains_key(self.keys@[i]@)
                && self.contents@[self.keys@[i]@] == self.values@[i]@
        &&& forall|k: Seq<u8>|
            #[trigger] self.contents@.contains_key(k) ==> exists|i: int|
                0 <= i < self.keys@.len() && self.keys@[i]@ == k
    }

    /// An empty view.
    pub fn new() -> (r: TrieUpdate)
        ensures
            r.wf(),
            r@ == Map::<Seq<u8>, Seq<u8>>::empty(),
            r.spec_touched_nodes() == 0,
            r.spec_cache_mode() == TrieCacheMode::CachingShard,
    {
        TrieUpdate {
            keys: Vec::new(),
            values: Vec::new(),
            contents: Ghost(Map::empty()),
            cache_mode: TrieCacheMode::CachingShard,
            touched_nodes: 0,
        }
    }

    fn find(&self, key: &[u8]) -> (r: Option<usize>)
        requires
            self.wf(),
        ensures
            match r {
                Some(i) => i < self.keys@.len() && self.keys@[i as int]@ == key@,
                None => !self@.contains_key(key@),
            },
    {
        let mut i: usize = 0;
        while i < self.keys.len()
            invariant
                self.wf(),
                0 <= i <= self.keys@.len(),
                forall|j: int| 0 <= j < i ==> self.keys@[j]@ != key@,
            decreases self.keys@.len() - i,
        {
            if bytes_eq(self.keys[i].as_slice(), key) {
                return Some(i);
            }
            i = i + 1;
        }
        None
    }

    /// The value stored under `key`, copied out.
    pub fn get(&self, key: &[u8]) -> (r: Option<Vec<u8>>)
        requires
            self.wf(),
        ensures
            match r {
                Some(v) => self@.contains_key(key@) && v@ == self@[key@],
                None => !self@.contains_key(key@),
            },
    {
        match self.find(key) {
            Some(i) => {
                assert(self.contents@.contains_key(self.keys@[i as int]@));
                Some(copy_bytes(self.values[i].as_slice()))
            },
            None => None,
        }
    }

    /// Length of the value stored under `key`, without copying it.
    pub fn value_len(&self, key: &[u8]) -> (r: Option<usize>)
        requires
            self.wf(),
        ensures
            match r {
                Some(n) => self@.contains_key(key@) && n == self@[key@].len(),
                None => !self@.contains_key(key@),
            },
    {
        match self.find(key) {
            Some(i) => {
                assert(self.contents@.contains_key(self.keys@[i as int]@));
                Some(self.values[i].len())
            },
            None => None,
        }
    }

    /// Stores `value` under `key`, replacing what was there.
    pub fn set(&mut self, key: Vec<u8>, value: Vec<u8>)
        requires
            old(self).wf(),
        ensures
            final(self).wf(),
            final(self)@ == old(self)@.insert(key@, value@),
            final(self).spec_touched_nodes() == old(self).spec_touched_nodes(),
            final(self).spec_cache_mode() == old(self).spec_cache_mode(),
    {
        let ghost old_self = *self;
        match self.find(key.as_slice()) {
            Some(i) => {
                self.values.set(i, value);
                self.contents = Ghost(self.contents@.insert(key@, value@));
                assert forall|a: int| 0 <= a < self.keys@.len() implies
                    #[trigger] self.contents@.contains_key(self.keys@[a]@)
                        && self.contents@[self.keys@[a]@] == self.values@[a]@ by {
                    if a != i {
                        assert(old_self.contents@.contains_key(old_self.keys@[a]@));
                    }
                }
                assert forall|k: Seq<u8>| #[trigger] self.contents@.contains_key(k) implies exists|j: int|
                    0 <= j < self.keys@.len() && self.keys@[j]@ == k by {
                    if k != key@ {
                        assert(old_self.contents@.contains_key(k));
                    }
                }
            },
            None => {
                let ghost n = self.keys@.len();
                self.keys.push(key);
                self.values.push(value);
                self.contents = Ghost(self.contents@.insert(key@, value@));
                assert(self.keys@[n as int]@ == key@);
                assert forall|a: int| 0 <= a < n implies old_self.keys@[a]@ != key@ by {
                    assert(old_self.contents@.contains_key(old_self.keys@[a]@));
                }
                assert forall|a: int| 0 <= a < self.keys@.len() implies
                    #[trigger] self.contents@.contains_key(self.keys@[a]@)
                        && self.contents@[self.keys@[a]@] == self.values@[a]@ by {
                    if a != n {
                        assert(old_self.contents@.contains_key(old_self.keys@[a]@));
                    }
                }
                assert forall|k: Seq<u8>| #[trigger] self.contents@.contains_key(k) implies exists|j: int|
                    0 <= j < self.keys@.len() && self.keys@[j]@ == k by {
                    if k != key@ {
                        assert(old_self.contents@.contains_key(k));
                        let j = choose|j: int| 0 <= j < old_self.keys@.len() && old_self.keys@[j]@ == k;
                        assert(self.keys@[j]@ == k);
                    }
                }
            },
        }
    }

    /// Removes `key`; nothing happens when it is absent.
    pub fn remove(&mut self, key: &[u8])
        requires
            old(self).wf(),
        ensures
            final(self).wf(),
            final(self)@ == old(self)@.remove(key@),
            final(self).spec_touched_nodes() == old(self).spec_touched_nodes(),
            final(self).spec_cache_mode() == old(self).spec_cache_mode(),
    {
        let ghost old_self = *self;
        match self.find(key) {
            Some(i) => {
                self.keys.remove(i);
                self.values.remove(i);
                self.contents = Ghost(self.contents@.remove(key@));
                assert forall|a: int, b: int|
                    0 <= a < self.keys@.len() && 0 <= b < self.keys@.len() && a != b
                        implies self.keys@[a]@ != self.keys@[b]@ by {
                    let oa = if a < i { a } else { a + 1 };
                    let ob = if b < i { b } else { b + 1 };
                    assert(self.keys@[a] == old_self.keys@[oa]);
                    assert(self.keys@[b] == old_self.keys@[ob]);
                }
                assert forall|a: int| 0 <= a < self.keys@.len() implies
                    #[trigger] self.contents@.contains_key(self.keys@[a]@)
                        && self.contents@[self.keys@[a]@] == self.values@[a]@ by {
                    let oa = if a < i { a } else { a + 1 };
                    assert(self.keys@[a] == old_self.keys@[oa]);
                    assert(self.values@[a] == old_self.values@[oa]);
                    assert(old_self.keys@[oa]@ != old_self.keys@[i as int]@);
                    assert(old_self.contents@.contains_key(old_self.keys@[oa]@));
                }
                assert forall|k: Seq<u8>| #[trigger] self.contents@.contains_key(k) implies exists|j: int|
                    0 <= j < self.keys@.len() && self.keys@[j]@ == k by {
                    assert(old_self.contents@.contains_key(k));
                    let oj = choose|j: int| 0 <= j < old_self.keys@.len() && old_self.keys@[j]@ == k;
                    assert(oj != i);
                    let j = if oj < i { oj } else { oj - 1 };
                    assert(self.keys@[j] == old_self.keys@[oj]);
                }
            },
            None => {
                assert(self.contents@ =~= self.contents@.remove(key@));
            },
        }
    }

    /// Every stored raw key that starts with `prefix`.
    pub fn iter(&self, prefix: &[u8]) -> (r: Vec<Vec<u8>>)
        requires
            self.wf(),
        ensures
            forall|j: int| 0 <= j < r@.len() ==> self@.contains_key(#[trigger] r@[j]@)
                && prefix@.is_prefix_of(r@[j]@),
            forall|k: Seq<u8>| #[trigger] self@.contains_key(k) && prefix@.is_prefix_of(k)
                ==> exists|j: int| 0 <= j < r@.len() && r@[j]@ == k,
    {
        let mut r: Vec<Vec<u8>> = Vec::new();
        let mut i: usize = 0;
        while i < self.keys.len()
            invariant
                self.wf(),
                0 <= i <= self.keys@.len(),
                forall|j: int| 0 <= j < r@.len() ==> self@.contains_key(#[trigger] r@[j]@)
                    && prefix@.is_prefix_of(r@[j]@),
                forall|t: int| 0 <= t < i && prefix@.is_prefix_of(#[trigger] self.keys@[t]@)
                    ==> exists|j: int| 0 <= j < r@.len() && r@[j]@ == self.keys@[t]@,
            decreases self.keys@.len() - i,
        {
            if starts_with(self.keys[i].as_slice(), prefix) {
                let k = copy_bytes(self.keys[i].as_slice());
                let ghost n = r@.len();
                let ghost old_r = r@;
                r.push(k);
                assert(r@[n as int]@ == self.keys@[i as int]@);
                assert forall|t: int| 0 <= t < i + 1 && prefix@.is_prefix_of(#[trigger] self.keys@[t]@)
                    implies exists|j: int| 0 <= j < r@.len() && r@[j]@ == self.keys@[t]@ by {
                    if t < i {
                        let j = choose|j: int| 0 <= j < old_r.len() && old_r[j]@ == self.keys@[t]@;
                        assert(r@[j] == old_r[j]);
                    } else {
                        assert(r@[n as int]@ == self.keys@[t]@);
                    }
                }
            }
            i = i + 1;
        }
        assert forall|k: Seq<u8>| #[trigger] self@.contains_key(k) && prefix@.is_prefix_of(k)
            implies exists|j: int| 0 <= j < r@.len() && r@[j]@ == k by {
            let t = choose|t: int| 0 <= t < self.keys@.len() && self.keys@[t]@ == k;
            assert(prefix@.is_prefix_of(self.keys@[t]@));
        }
        r
    }

    /// Switches the caching strategy; contents stay as they are.
    pub fn set_trie_cache_mode(&mut self, mode: TrieCacheMode)
        requires
            old(self).wf(),
        ensures
            final(self).wf(),
            final(self)@ == old(self)@,
            final(self).spec_cache_mode() == mode,
            final(self).spec_touched_nodes() == old(self).spec_touched_nodes(),
    {
        self.cache_mode = mode;
    }

    /// Number of storage nodes visited so far, for the host's cost accounting.
    /// This view holds its entries directly and visits no nodes, so the count
    /// never grows: it stays 0 from `new` on.
    pub fn get_touched_nodes_count(&self) -> (r: u64)
        ensures
            r == self.spec_touched_nodes(),
    {
        self.touched_nodes
    }
}

} // verus!
