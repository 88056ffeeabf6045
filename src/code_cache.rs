use vstd::prelude::*;

use crate::data_id::CryptoHash;
use crate::trie::TrieUpdate;

verus! {

/// Contract code already loaded, by code hash; shared across invocations.
pub struct CodeCache {
    entries: TrieUpdate,
}

impl CodeCache {
    /// Code hash to bytecode.
    pub closed spec fn view(&self) -> Map<Seq<u8>, Seq<u8>> {
        self.entries@
    }

    pub closed spec fn wf(&self) -> bool {
        self.entries.wf()
    }

    pub fn new() -> (r: CodeCache)
        ensures
            r.wf(),
            r@ == Map::<Seq<u8>, Seq<u8>>::empty(),
    {
        CodeCache { entries: TrieUpdate::new() }
    }

    /// The cached bytecode of `code_hash`, if any.
    pub fn get(&self, code_hash: &CryptoHash) -> (r: Option<Vec<u8>>)
        requires
            self.wf(),
        ensures
            match r {
                Some(c) => self@.contains_key(code_hash@) && c@ == self@[code_hash@],
                None => !self@.contains_key(code_hash@),
            },
    {
        self.entries.get(code_hash.0.as_slice())
    }

    /// Records the bytecode of `code_hash`.
    pub fn insert(&mut self, code_hash: &CryptoHash, code: Vec<u8>)
        requires
            old(self).wf(),
        ensures
            final(self).wf(),
            final(self)@ == old(self)@.insert(code_hash@, code@),
    {
        let key = crate::bytes::copy_bytes(code_hash.0.as_slice());
        self.entries.set(key, code);
    }
}

} // verus!
