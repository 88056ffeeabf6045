use runtime_ext::{
    get_raw_prefix_for_contract_data, parse_data_key_from_contract_data_key, AccountId, CodeCache,
    CryptoHash, EpochError, ExternalError, RuntimeExt, StorageError, TrieCacheMode, TrieKey,
    TrieUpdate,
};

fn account(name: &str) -> AccountId {
    AccountId::new(name.as_bytes().to_vec()).expect("valid account")
}

fn ext_with(trie: TrieUpdate, name: &str, version: u32) -> RuntimeExt {
    RuntimeExt::new(
        trie,
        account(name),
        CryptoHash([1; 32]),
        CryptoHash([2; 32]),
        CryptoHash([3; 32]),
        CryptoHash([4; 32]),
        version,
    )
}

fn ext(name: &str) -> RuntimeExt {
    ext_with(TrieUpdate::new(), name, 50)
}

fn read(e: &RuntimeExt, key: &[u8]) -> Option<Vec<u8>> {
    e.storage_get(key).unwrap().map(|ptr| ptr.deref().unwrap())
}

#[test]
fn set_then_get_dereferences_to_value() {
    let mut e = ext("alice");
    e.storage_set(b"k", b"hello").unwrap();
    let ptr = e.storage_get(b"k").unwrap().expect("present");
    assert_eq!(ptr.len(), 5);
    assert_eq!(ptr.deref().unwrap(), b"hello".to_vec());
}

#[test]
fn set_overwrites() {
    let mut e = ext("alice");
    e.storage_set(b"k", b"one").unwrap();
    e.storage_set(b"k", b"two").unwrap();
    assert_eq!(read(&e, b"k"), Some(b"two".to_vec()));
}

#[test]
fn get_missing_is_absent() {
    let e = ext("alice");
    assert!(e.storage_get(b"nothing").unwrap().is_none());
}

#[test]
fn remove_then_get_is_absent_and_idempotent() {
    let mut e = ext("alice");
    e.storage_remove(b"k").unwrap();
    assert!(e.storage_get(b"k").unwrap().is_none());
    e.storage_set(b"k", b"v").unwrap();
    e.storage_remove(b"k").unwrap();
    assert!(e.storage_get(b"k").unwrap().is_none());
    e.storage_remove(b"k").unwrap();
    assert!(!e.storage_has_key(b"k").unwrap());
}

#[test]
fn has_key_reports_presence() {
    let mut e = ext("alice");
    assert!(!e.storage_has_key(b"k").unwrap());
    e.storage_set(b"k", b"").unwrap();
    assert!(e.storage_has_key(b"k").unwrap());
}

#[test]
fn handle_length_matches_value_after_overwrite() {
    let mut e = ext("alice");
    e.storage_set(b"k", b"ab").unwrap();
    {
        let ptr = e.storage_get(b"k").unwrap().unwrap();
        assert_eq!(ptr.len(), 2);
        assert_eq!(ptr.deref().unwrap(), b"ab".to_vec());
    }
    e.storage_set(b"k", b"abc").unwrap();
    let ptr = e.storage_get(b"k").unwrap().unwrap();
    assert_eq!(ptr.len(), 3);
    assert_eq!(ptr.deref().unwrap().len(), ptr.len());
}

#[test]
fn opaque_error_keeps_cause_for_host() {
    let err = runtime_ext::wrap_storage_error(StorageError::MissingTrieValue);
    assert!(matches!(
        err.host_cause(),
        ExternalError::StorageError(StorageError::MissingTrieValue)
    ));
    let err = runtime_ext::VMLogicError::from(ExternalError::StorageError(
        StorageError::StorageInconsistentState,
    ));
    assert!(matches!(
        err.host_cause(),
        ExternalError::StorageError(StorageError::StorageInconsistentState)
    ));
}

#[test]
fn accounts_do_not_see_each_other() {
    let mut a = ext("alice");
    a.storage_set(b"k", b"secret").unwrap();
    let trie = a.into_trie_update();
    let mut b = ext_with(trie, "bob", 50);
    assert!(b.storage_get(b"k").unwrap().is_none());
    assert!(!b.storage_has_key(b"k").unwrap());
    b.storage_set(b"k", b"other").unwrap();
    let a = ext_with(b.into_trie_update(), "alice", 50);
    assert_eq!(read(&a, b"k"), Some(b"secret".to_vec()));
}

#[test]
fn prefix_accounts_do_not_collide() {
    let mut a = ext("al");
    a.storage_set(b"ice.k", b"x").unwrap();
    let b = ext_with(a.into_trie_update(), "alice", 50);
    assert!(b.storage_get(b".k").unwrap().is_none());
    assert!(b.storage_get(b"k").unwrap().is_none());
}

#[test]
fn subtree_delete_example() {
    let mut e = ext("alice");
    e.storage_set(b"messages/1", b"a").unwrap();
    e.storage_set(b"messages/2", b"b").unwrap();
    e.storage_set(b"other", b"c").unwrap();
    e.storage_remove_subtree(b"messages/").unwrap();
    assert!(!e.storage_has_key(b"messages/1").unwrap());
    assert!(!e.storage_has_key(b"messages/2").unwrap());
    assert!(e.storage_has_key(b"other").unwrap());
    assert_eq!(read(&e, b"other"), Some(b"c".to_vec()));
}

#[test]
fn subtree_delete_keeps_other_accounts() {
    let mut a = ext("alice");
    a.storage_set(b"p/1", b"a").unwrap();
    let mut b = ext_with(a.into_trie_update(), "bob", 50);
    b.storage_set(b"p/1", b"b").unwrap();
    b.storage_remove_subtree(b"p/").unwrap();
    assert!(!b.storage_has_key(b"p/1").unwrap());
    let a = ext_with(b.into_trie_update(), "alice", 50);
    assert_eq!(read(&a, b"p/1"), Some(b"a".to_vec()));
}

#[test]
fn subtree_delete_empty_prefix_clears_account() {
    let mut e = ext("alice");
    e.storage_set(b"x", b"1").unwrap();
    e.storage_set(b"", b"2").unwrap();
    e.storage_remove_subtree(b"").unwrap();
    assert!(!e.storage_has_key(b"x").unwrap());
    assert!(!e.storage_has_key(b"").unwrap());
}

#[test]
fn subtree_delete_on_nothing_succeeds() {
    let mut e = ext("alice");
    assert!(e.storage_remove_subtree(b"none/").is_ok());
}

#[test]
fn two_data_ids_are_distinct() {
    let mut e = ext("alice");
    let a = e.generate_data_id();
    let b = e.generate_data_id();
    assert_ne!(a, b);
}

#[test]
fn data_ids_are_reproducible() {
    let mut e1 = ext("alice");
    let mut e2 = ext("alice");
    assert_eq!(e1.generate_data_id(), e2.generate_data_id());
    assert_eq!(e1.generate_data_id(), e2.generate_data_id());
}

fn expected_id(parts: &[&[u8]]) -> CryptoHash {
    let mut bytes = Vec::new();
    for p in parts {
        bytes.extend_from_slice(p);
    }
    CryptoHash(near_primitives::hash::hash(&bytes).0)
}

#[test]
fn data_id_composition_follows_protocol_version() {
    let mut old = ext_with(TrieUpdate::new(), "alice", 30);
    let mut mid = ext_with(TrieUpdate::new(), "alice", 40);
    let mut new = ext_with(TrieUpdate::new(), "alice", 50);
    let first = 0u64.to_le_bytes();
    let second = 1u64.to_le_bytes();
    assert_eq!(old.generate_data_id(), expected_id(&[&[1; 32], &first]));
    assert_eq!(mid.generate_data_id(), expected_id(&[&[1; 32], &[3; 32], &first]));
    assert_eq!(new.generate_data_id(), expected_id(&[&[1; 32], &[4; 32], &first]));
    assert_eq!(new.generate_data_id(), expected_id(&[&[1; 32], &[4; 32], &second]));
    assert_ne!(expected_id(&[&[1; 32], &first]), CryptoHash([1; 32]));
}

#[test]
fn protocol_version_is_fixed() {
    let mut e = ext_with(TrieUpdate::new(), "alice", 61);
    e.storage_set(b"k", b"v").unwrap();
    e.generate_data_id();
    e.set_trie_cache_mode(TrieCacheMode::CachingChunk);
    assert_eq!(e.protocol_version(), 61);
}

fn code_trie(name: &str, code: &[u8]) -> TrieUpdate {
    let mut trie = TrieUpdate::new();
    let key = TrieKey::ContractCode { account_id: account(name) }.to_vec();
    trie.set(key, code.to_vec());
    trie
}

#[test]
fn code_miss_then_hit() {
    let mut cache = CodeCache::new();
    let hash = CryptoHash([9; 32]);
    let e = ext_with(code_trie("alice", b"\0asm"), "alice", 50);
    assert!(cache.get(&hash).is_none());
    let first = e.get_code(hash, &mut cache).unwrap();
    assert_eq!(first, Some(b"\0asm".to_vec()));
    assert_eq!(cache.get(&hash), Some(b"\0asm".to_vec()));
    // A view without the code still answers from the cache.
    let empty = ext_with(TrieUpdate::new(), "alice", 50);
    assert_eq!(empty.get_code(hash, &mut cache).unwrap(), first);
}

#[test]
fn code_absent_is_none_and_not_cached() {
    let mut cache = CodeCache::new();
    let hash = CryptoHash([7; 32]);
    let e = ext("alice");
    assert_eq!(e.get_code(hash, &mut cache).unwrap(), None);
    assert!(cache.get(&hash).is_none());
}

#[test]
fn stake_of_non_validator_is_absent() {
    let e = ext("alice");
    assert_eq!(e.validator_stake(Ok(None)).unwrap(), None);
    assert_eq!(e.validator_stake(Ok(Some(10))).unwrap(), Some(10));
}

#[test]
fn validator_errors_are_opaque() {
    let e = ext("alice");
    let err = e
        .validator_stake(Err(EpochError { reason: "missing block".to_string() }))
        .unwrap_err();
    assert!(matches!(err.host_cause(), ExternalError::ValidatorError(x) if x.reason == "missing block"));
    let err = e
        .validator_total_stake(Err(EpochError { reason: "out of bounds".to_string() }))
        .unwrap_err();
    assert!(matches!(err.host_cause(), ExternalError::ValidatorError(_)));
    assert_eq!(e.validator_total_stake(Ok(1000)).unwrap(), 1000);
}

#[test]
fn storage_keys_are_namespaced() {
    let e = ext("alice");
    let tk = e.create_storage_key(b"k");
    assert!(matches!(&tk, TrieKey::ContractData { account_id, key }
        if account_id.as_bytes() == b"alice" && key == b"k"));
    let key = tk.to_vec();
    assert_eq!(key, b"\x09alice,k".to_vec());
    assert_eq!(get_raw_prefix_for_contract_data(&account("bob"), b"p"), b"\x09bob,p".to_vec());
    assert_eq!(e.account_id().as_bytes(), b"alice");
}

#[test]
fn parse_data_key_round_trip_and_error() {
    let a = account("alice");
    assert_eq!(parse_data_key_from_contract_data_key(b"\x09alice,key", &a).unwrap(), b"key".to_vec());
    assert_eq!(
        parse_data_key_from_contract_data_key(b"\x09alic", &a).unwrap_err(),
        StorageError::StorageInconsistentState
    );
}

#[test]
fn account_with_separator_is_refused() {
    assert!(AccountId::new(b"a,b".to_vec()).is_none());
    assert!(AccountId::new(b"a.b".to_vec()).is_some());
}

#[test]
fn touched_nodes_and_cache_mode() {
    let mut e = ext("alice");
    e.set_trie_cache_mode(TrieCacheMode::CachingChunk);
    e.storage_set(b"k", b"v").unwrap();
    assert_eq!(e.get_touched_nodes_count(), 0);
    assert_eq!(read(&e, b"k"), Some(b"v".to_vec()));
}
