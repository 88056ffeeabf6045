use vstd::prelude::*;

use crate::code_cache::CodeCache;
use crate::data_id::{create_data_id, data_id_of, CryptoHash};
use crate::error::{
    wrap_storage_error, wrap_validator_error, EpochError, ExternalError, StorageError, VMLogicError,
};
use crate::keys::{
    account_is_valid,     contract_code_key, contract_data_key, data_key_offset, get_raw_prefix_for_contract_data,
    lemma_parse_rebuilds, parse_data_key_from_contract_data_key, AccountId, TrieKey,
};
use crate::trie::{TrieCacheMode, TrieUpdate};

verus! {

/// Amount of stake, in the ledger's smallest unit.
pub type Balance = u128;

/// The bytecode that a code lookup yields: the cached entry, else what the
/// store holds under the account's code key.
pub open spec fn code_lookup(
    cache: Map<Seq<u8>, Seq<u8>>,
    state: Map<Seq<u8>, Seq<u8>>,
    account: Seq<u8>,
    code_hash: Seq<u8>,
) -> Option<Seq<u8>> {
    if cache.contains_key(code_hash) {
        Some(cache[code_hash])
    } else if state.contains_key(contract_code_key(account)) {
        Some(state[contract_code_key(account)])
    } else {
        None
    }
}

/// The cache after a lookup: a miss that found code in the store records it.
pub open spec fn cache_after_lookup(
    cache: Map<Seq<u8>, Seq<u8>>,
    state: Map<Seq<u8>, Seq<u8>>,
    account: Seq<u8>,
    code_hash: Seq<u8>,
) -> Map<Seq<u8>, Seq<u8>> {
    if !cache.contains_key(code_hash) && state.contains_key(contract_code_key(account)) {
        cache.insert(code_hash, state[contract_code_key(account)])
    } else {
        cache
    }
}

/// The store after removing every key that starts with `raw_prefix`.
pub open spec fn without_prefix(state: Map<Seq<u8>, Seq<u8>>, raw_prefix: Seq<u8>) -> Map<
    Seq<u8>,
    Seq<u8>,
> {
    state.restrict(state.dom().filter(|k: Seq<u8>| !raw_prefix.is_prefix_of(k)))
}

pub open spec fn bytes_of(o: Option<Vec<u8>>) -> Option<Seq<u8>> {
    match o {
        Some(v) => Some(v@),
        None => None,
    }
}

/// A lazy handle on a stored value: its length is known, its bytes are read
/// only on `deref`. It borrows the view, so the view cannot change while the
/// handle lives.
pub struct RuntimeExtValuePtr<'a> {
    trie: &'a TrieUpdate,
    key: Vec<u8>,
    length: usize,
}

impl<'a> RuntimeExtValuePtr<'a> {
    /// Raw key of the value this handle points to.
    pub closed spec fn spec_key(&self) -> Seq<u8> {
        self.key@
    }

    /// Contents of the view the handle borrows.
    pub closed spec fn spec_state(&self) -> Map<Seq<u8>, Seq<u8>> {
        self.trie@
    }

    pub closed spec fn spec_len(&self) -> usize {
        self.length
    }

    /// The handle points to a stored value, and its length is that value's.
    pub closed spec fn wf(&self) -> bool {
        &&& self.trie.wf()
        &&& self.trie@.contains_key(self.key@)
        &&& self.length as nat == self.trie@[self.key@].len()
    }

    /// Byte length of the value, without reading it.
    pub fn len(&self) -> (r: usize)
        requires
            self.wf(),
        ensures
            r == self.spec_len(),
            r as nat == self.spec_state()[self.spec_key()].len(),
    {
        self.length
    }

    /// Reads the value.
    pub fn deref(&self) -> (r: Result<Vec<u8>, VMLogicError>)
        requires
            self.wf(),
        ensures
            r matches Ok(v) && v@ == self.spec_state()[self.spec_key()] && v@.len()
                == self.spec_len() as nat,
    {
        match self.trie.get(self.key.as_slice()) {
            Some(v) => Ok(v),
            None => Err(wrap_storage_error(StorageError::MissingTrieValue)),
        }
    }
}

/// The adapter through which one contract invocation reaches storage and its
/// environment. All storage keys are scoped to `account_id`.
pub struct RuntimeExt {
    trie_update: TrieUpdate,
    account_id: AccountId,
    action_hash: CryptoHash,
    data_count: u64,
    epoch_id: CryptoHash,
    prev_block_hash: CryptoHash,
    last_block_hash: CryptoHash,
    current_protocol_version: u32,
}

impl RuntimeExt {
    pub open spec fn wf(&self) -> bool {
        self.spec_trie().wf() && account_is_valid(self.spec_account())
    }

    /// Contents of the transactional view, by raw key.
    pub closed spec fn state(&self) -> Map<Seq<u8>, Seq<u8>> {
        self.trie_update@
    }

    pub closed spec fn spec_trie(&self) -> TrieUpdate {
        self.trie_update
    }

    pub closed spec fn spec_account(&self) -> Seq<u8> {
        self.account_id@
    }

    pub closed spec fn spec_action_hash(&self) -> Seq<u8> {
        self.action_hash@
    }

    pub closed spec fn spec_epoch_id(&self) -> Seq<u8> {
        self.epoch_id@
    }

    pub closed spec fn spec_prev_block_hash(&self) -> Seq<u8> {
        self.prev_block_hash@
    }

    pub closed spec fn spec_last_block_hash(&self) -> Seq<u8> {
        self.last_block_hash@
    }

    pub closed spec fn spec_protocol_version(&self) -> u32 {
        self.current_protocol_version
    }

    /// Number of data ids generated so far in this invocation.
    pub closed spec fn spec_data_count(&self) -> u64 {
        self.data_count
    }

    pub closed spec fn spec_cache_mode(&self) -> TrieCacheMode {
        self.trie_update.spec_cache_mode()
    }

    pub closed spec fn spec_touched_nodes(&self) -> u64 {
        self.trie_update.spec_touched_nodes()
    }

    /// The invocation's identity is the same in both: account, action, epoch,
    /// block anchors and protocol version.
    pub open spec fn same_identity(&self, other: &RuntimeExt) -> bool {
        &&& self.spec_account() == other.spec_account()
        &&& self.spec_action_hash() == other.spec_action_hash()
        &&& self.spec_epoch_id() == other.spec_epoch_id()
        &&& self.spec_prev_block_hash() == other.spec_prev_block_hash()
        &&& self.spec_last_block_hash() == other.spec_last_block_hash()
        &&& self.spec_protocol_version() == other.spec_protocol_version()
    }

    /// A storage operation changed neither the identity, the id counter, the
    /// cache mode nor the touched-node counter.
    pub open spec fn same_context(&self, other: &RuntimeExt) -> bool {
        &&& self.same_identity(other)
        &&& self.spec_data_count() == other.spec_data_count()
        &&& self.spec_cache_mode() == other.spec_cache_mode()
        &&& self.spec_touched_nodes() == other.spec_touched_nodes()
    }

    pub fn new(
        trie_update: TrieUpdate,
        account_id: AccountId,
        action_hash: CryptoHash,
        epoch_id: CryptoHash,
        prev_block_hash: CryptoHash,
        last_block_hash: CryptoHash,
        current_protocol_version: u32,
    ) -> (r: RuntimeExt)
        requires
            trie_update.wf(),
            account_id.wf(),
        ensures
            r.wf(),
            r.spec_trie() == trie_update,
            r.state() == trie_update@,
            r.spec_account() == account_id@,
            r.spec_action_hash() == action_hash@,
            r.spec_epoch_id() == epoch_id@,
            r.spec_prev_block_hash() == prev_block_hash@,
            r.spec_last_block_hash() == last_block_hash@,
            r.spec_protocol_version() == current_protocol_version,
            r.spec_data_count() == 0,
            r.spec_cache_mode() == trie_update.spec_cache_mode(),
            r.spec_touched_nodes() == trie_update.spec_touched_nodes(),
    {
        RuntimeExt {
            trie_update,
            account_id,
            action_hash,
            data_count: 0,
            epoch_id,
            prev_block_hash,
            last_block_hash,
            current_protocol_version,
        }
    }

    /// Hands the view, with its buffered mutations, back to the host.
    pub fn into_trie_update(self) -> (r: TrieUpdate)
        ensures
            r == self.spec_trie(),
    {
        self.trie_update
    }

    pub fn trie_update(&self) -> (r: &TrieUpdate)
        ensures
            *r == self.spec_trie(),
    {
        &self.trie_update
    }

    pub fn account_id(&self) -> (r: &AccountId)
        requires
            self.wf(),
        ensures
            r@ == self.spec_account(),
            r.wf(),
    {
        &self.account_id
    }

    pub fn epoch_id(&self) -> (r: CryptoHash)
        ensures
            r@ == self.spec_epoch_id(),
    {
        self.epoch_id
    }

    pub fn prev_block_hash(&self) -> (r: CryptoHash)
        ensures
            r@ == self.spec_prev_block_hash(),
    {
        self.prev_block_hash
    }

    /// Bytecode for `code_hash`: from `cache` when it holds it, else read from
    /// the account's code key and recorded in `cache`. `None` when there is no code.
    pub fn get_code(&self, code_hash: CryptoHash, cache: &mut CodeCache) -> (r: Result<
        Option<Vec<u8>>,
        StorageError,
    >)
        requires
            self.wf(),
            old(cache).wf(),
        ensures
            final(cache).wf(),
            r is Ok,
            r matches Ok(code) && bytes_of(code) == code_lookup(
                old(cache)@,
                self.state(),
                self.spec_account(),
                code_hash@,
            ),
            final(cache)@ == cache_after_lookup(
                old(cache)@,
                self.state(),
                self.spec_account(),
                code_hash@,
            ),
    {
        match cache.get(&code_hash) {
            Some(code) => Ok(Some(code)),
            None => {
                let key = TrieKey::ContractCode { account_id: self.account_id.copy() }.to_vec();
                match self.trie_update.get(key.as_slice()) {
                    Some(code) => {
                        let stored = crate::bytes::copy_bytes(code.as_slice());
                        cache.insert(&code_hash, stored);
                        Ok(Some(code))
                    },
                    None => Ok(None),
                }
            },
        }
    }

    /// The account-scoped storage key for the caller's `key`.
    pub fn create_storage_key(&self, key: &[u8]) -> (r: TrieKey)
        ensures
            r matches TrieKey::ContractData { account_id, key: k } && account_id@
                == self.spec_account() && k@ == key@,
            r.spec_raw() == contract_data_key(self.spec_account(), key@),
    {
        TrieKey::ContractData {
            account_id: self.account_id.copy(),
            key: crate::bytes::copy_bytes(key),
        }
    }

    pub fn set_trie_cache_mode(&mut self, mode: TrieCacheMode)
        requires
            old(self).wf(),
        ensures
            final(self).wf(),
            final(self).state() == old(self).state(),
            final(self).same_identity(old(self)),
            final(self).spec_data_count() == old(self).spec_data_count(),
            final(self).spec_touched_nodes() == old(self).spec_touched_nodes(),
            final(self).spec_cache_mode() == mode,
    {
        self.trie_update.set_trie_cache_mode(mode);
    }

    pub fn protocol_version(&self) -> (r: u32)
        ensures
            r == self.spec_protocol_version(),
    {
        self.current_protocol_version
    }

    /// Stores `value` under the caller's `key`; never fails.
    pub fn storage_set(&mut self, key: &[u8], value: &[u8]) -> (r: Result<(), VMLogicError>)
        requires
            old(self).wf(),
        ensures
            final(self).wf(),
            r is Ok,
            final(self).same_context(old(self)),
            final(self).state() == old(self).state().insert(
                contract_data_key(old(self).spec_account(), key@),
                value@,
            ),
    {
        let storage_key = self.create_storage_key(key).to_vec();
        self.trie_update.set(storage_key, crate::bytes::copy_bytes(value));
        Ok(())
    }

    /// A lazy handle on the value under the caller's `key`, or `None`.
    pub fn storage_get<'b>(&'b self, key: &[u8]) -> (r: Result<
        Option<RuntimeExtValuePtr<'b>>,
        VMLogicError,
    >)
        requires
            self.wf(),
        ensures
            r is Ok,
            r matches Ok(found) && match found {
                Some(ptr) => self.state().contains_key(contract_data_key(self.spec_account(), key@))
                    && ptr.wf() && ptr.spec_state() == self.state() && ptr.spec_key()
                    == contract_data_key(self.spec_account(), key@) && ptr.spec_len() as nat
                    == self.state()[ptr.spec_key()].len(),
                None => !self.state().contains_key(contract_data_key(self.spec_account(), key@)),
            },
    {
        let storage_key = self.create_storage_key(key).to_vec();
        match self.trie_update.value_len(storage_key.as_slice()) {
            Some(n) => Ok(Some(RuntimeExtValuePtr { trie: &self.trie_update, key: storage_key, length: n })),
            None => Ok(None),
        }
    }

    /// Removes the caller's `key`; nothing happens when it is absent.
    pub fn storage_remove(&mut self, key: &[u8]) -> (r: Result<(), VMLogicError>)
        requires
            old(self).wf(),
        ensures
            final(self).wf(),
            r is Ok,
            final(self).same_context(old(self)),
            final(self).state() == old(self).state().remove(
                contract_data_key(old(self).spec_account(), key@),
            ),
    {
        let storage_key = self.create_storage_key(key).to_vec();
        self.trie_update.remove(storage_key.as_slice());
        Ok(())
    }

    /// Whether a value is stored under the caller's `key`.
    pub fn storage_has_key(&mut self, key: &[u8]) -> (r: Result<bool, VMLogicError>)
        requires
            old(self).wf(),
        ensures
            final(self).wf(),
            final(self).same_context(old(self)),
            final(self).state() == old(self).state(),
            r matches Ok(b) && b == old(self).state().contains_key(
                contract_data_key(old(self).spec_account(), key@),
            ),
    {
        let storage_key = self.create_storage_key(key).to_vec();
        Ok(self.trie_update.value_len(storage_key.as_slice()).is_some())
    }
    /// Removes every caller key that starts with `prefix`. The keys are
    /// collected first and removed afterwards; a raw key that cannot be parsed
    /// fails the whole operation before anything is removed.
    pub fn storage_remove_subtree(&mut self, prefix: &[u8]) -> (r: Result<(), VMLogicError>)
        requires
            old(self).wf(),
        ensures
            final(self).wf(),
            r is Ok,
            final(self).same_context(old(self)),
            final(self).state() == without_prefix(
                old(self).state(),
                contract_data_key(old(self).spec_account(), prefix@),
            ),
    {
        let ghost old_state = self.trie_update@;
        let ghost acc = self.account_id@;
        let raw_prefix = get_raw_prefix_for_contract_data(&self.account_id, prefix);
        let raw_keys = self.trie_update.iter(raw_prefix.as_slice());
        let mut data_keys: Vec<Vec<u8>> = Vec::new();
        let mut i: usize = 0;
        while i < raw_keys.len()
            invariant
                0 <= i <= raw_keys@.len(),
                data_keys@.len() == i,
                forall|j: int|
                    0 <= j < i ==> #[trigger] data_keys@[j]@ == raw_keys@[j]@.skip(
                        data_key_offset(acc),
                    ),
                forall|j: int|
                    0 <= j < raw_keys@.len() ==> raw_prefix@.is_prefix_of(#[trigger] raw_keys@[j]@),
                raw_prefix@ == contract_data_key(acc, prefix@),
                acc == self.account_id@,
            decreases raw_keys@.len() - i,
        {
            proof {
                lemma_parse_rebuilds(acc, prefix@, raw_keys@[i as int]@);
            }
            match parse_data_key_from_contract_data_key(raw_keys[i].as_slice(), &self.account_id) {
                Ok(k) => data_keys.push(k),
                Err(e) => return Err(wrap_storage_error(e)),
            }
            i = i + 1;
        }
        let mut j: usize = 0;
        while j < data_keys.len()
            invariant
                self.wf(),
                0 <= j <= data_keys@.len(),
                data_keys@.len() == raw_keys@.len(),
                forall|t: int|
                    0 <= t < data_keys@.len() ==> #[trigger] data_keys@[t]@ == raw_keys@[t]@.skip(
                        data_key_offset(acc),
                    ),
                forall|t: int|
                    0 <= t < raw_keys@.len() ==> raw_prefix@.is_prefix_of(#[trigger] raw_keys@[t]@),
                raw_prefix@ == contract_data_key(acc, prefix@),
                acc == self.account_id@,
                forall|k: Seq<u8>|
                    #[trigger] self.trie_update@.contains_key(k) <==> (old_state.contains_key(k)
                        && forall|t: int| 0 <= t < j ==> raw_keys@[t]@ != k),
                forall|k: Seq<u8>|
                    #[trigger] self.trie_update@.contains_key(k) ==> self.trie_update@[k]
                        == old_state[k],
                self.same_context(old(self)),
            decreases data_keys@.len() - j,
        {
            proof {
                lemma_parse_rebuilds(acc, prefix@, raw_keys@[j as int]@);
            }
            let key = self.create_storage_key(data_keys[j].as_slice()).to_vec();
            assert(key@ == raw_keys@[j as int]@);
            let ghost before = self.trie_update@;
            self.trie_update.remove(key.as_slice());
            assert forall|k: Seq<u8>|
                #[trigger] self.trie_update@.contains_key(k) <==> (old_state.contains_key(k)
                    && forall|t: int| 0 <= t < j + 1 ==> raw_keys@[t]@ != k) by {
                if old_state.contains_key(k) && forall|t: int| 0 <= t < j + 1 ==> raw_keys@[t]@ != k {
                    assert(raw_keys@[j as int]@ != k);
                    assert(before.contains_key(k));
                }
            }
            j = j + 1;
        }
        let ghost rp = contract_data_key(acc, prefix@);
        assert forall|k: Seq<u8>| #[trigger] self.trie_update@.contains_key(k) <==> without_prefix(
            old_state,
            rp,
        ).contains_key(k) by {
            if old_state.contains_key(k) && rp.is_prefix_of(k) {
                let t = choose|t: int| 0 <= t < raw_keys@.len() && raw_keys@[t]@ == k;
                assert(raw_keys@[t]@ == k);
            }
            if self.trie_update@.contains_key(k) {
                if rp.is_prefix_of(k) {
                    let t = choose|t: int| 0 <= t < raw_keys@.len() && raw_keys@[t]@ == k;
                    assert(raw_keys@[t]@ != k);
                }
            }
        }
        assert(self.trie_update@ =~= without_prefix(old_state, rp));
        Ok(())
    }

    /// A fresh data id: derived from the protocol version, the action hash, the
    /// two block anchors and the number of ids generated so far, which then
    /// grows by one.
    pub fn generate_data_id(&mut self) -> (r: CryptoHash)
        requires
            old(self).wf(),
            old(self).spec_data_count() < u64::MAX,
        ensures
            final(self).wf(),
            final(self).state() == old(self).state(),
            final(self).same_identity(old(self)),
            final(self).spec_cache_mode() == old(self).spec_cache_mode(),
            final(self).spec_touched_nodes() == old(self).spec_touched_nodes(),
            final(self).spec_data_count() == old(self).spec_data_count() + 1,
            r@ == data_id_of(
                old(self).spec_protocol_version(),
                old(self).spec_action_hash(),
                old(self).spec_prev_block_hash(),
                old(self).spec_last_block_hash(),
                old(self).spec_data_count() as nat,
            ),
    {
        let data_id = create_data_id(
            self.current_protocol_version,
            &self.action_hash,
            &self.prev_block_hash,
            &self.last_block_hash,
            self.data_count,
        );
        self.data_count = self.data_count + 1;
        data_id
    }

    /// Number of storage nodes visited so far, for the host's cost accounting;
    /// the view's own count, which its in-memory entries leave at 0.
    pub fn get_touched_nodes_count(&self) -> (r: u64)
        ensures
            r == self.spec_touched_nodes(),
    {
        self.trie_update.get_touched_nodes_count()
    }

    /// Stake of an account in this invocation's epoch, given the provider's
    /// answer for (epoch id, previous block hash, account). `None` means the
    /// account is no validator; a provider failure becomes the opaque failure.
    pub fn validator_stake(&self, answer: Result<Option<Balance>, EpochError>) -> (r: Result<
        Option<Balance>,
        VMLogicError,
    >)
        ensures
            match answer {
                Ok(stake) => r == Ok::<Option<Balance>, VMLogicError>(stake),
                Err(e) => r matches Err(v) && v.spec_cause() == ExternalError::ValidatorError(e),
            },
    {
        match answer {
            Ok(stake) => Ok(stake),
            Err(e) => Err(wrap_validator_error(e)),
        }
    }

    /// Total validator stake of this invocation's epoch, given the provider's
    /// answer for (epoch id, previous block hash).
    pub fn validator_total_stake(&self, answer: Result<Balance, EpochError>) -> (r: Result<
        Balance,
        VMLogicError,
    >)
        ensures
            match answer {
                Ok(total) => r == Ok::<Balance, VMLogicError>(total),
                Err(e) => r matches Err(v) && v.spec_cause() == ExternalError::ValidatorError(e),
            },
    {
        match answer {
            Ok(total) => Ok(total),
            Err(e) => Err(wrap_validator_error(e)),
        }
    }
}

} // verus!
