//! Storage and environment adapter that a contract runtime exposes to sandboxed
//! contract code: account-scoped storage, lazy value handles, subtree removal,
//! deterministic data ids, contract code loading and validator stake queries.

pub mod bytes;
pub mod code_cache;
pub mod data_id;
pub mod error;
pub mod ext;
pub mod keys;
pub mod laws;
pub mod trie;

pub use bytes::copy_bytes;
pub use code_cache::CodeCache;
pub use data_id::CryptoHash;
pub use error::{
    wrap_storage_error, wrap_validator_error, EpochError, ExternalError, StorageError, VMLogicError,
};
pub use ext::{Balance, RuntimeExt, RuntimeExtValuePtr};
pub use keys::{
    get_raw_prefix_for_contract_data, parse_data_key_from_contract_data_key, AccountId, TrieKey,
};
pub use trie::{TrieCacheMode, TrieUpdate};
