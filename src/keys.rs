use vstd::prelude::*;

use crate::bytes::copy_bytes;
use crate::error::StorageError;

verus! {

/// Column tag of contract code keys.
pub const CONTRACT_CODE_COLUMN: u8 = 1;

/// Column tag of contract data keys.
pub const CONTRACT_DATA_COLUMN: u8 = 9;

/// Byte between the account and the caller's key in a contract data key (`,`).
pub const ACCOUNT_DATA_SEPARATOR: u8 = 44;

/// Raw key of a contract data entry, or the raw prefix of a set of them:
/// data column, account, separator, caller-supplied bytes.
pub open spec fn contract_data_key(account: Seq<u8>, key: Seq<u8>) -> Seq<u8> {
    seq![CONTRACT_DATA_COLUMN] + account + seq![ACCOUNT_DATA_SEPARATOR] + key
}

/// Raw key under which an account's contract code is stored.
pub open spec fn contract_code_key(account: Seq<u8>) -> Seq<u8> {
    seq![CONTRACT_CODE_COLUMN] + account
}

/// Length of the part of a contract data key that precedes the caller's key.
pub open spec fn data_key_offset(account: Seq<u8>) -> int {
    account.len() as int + 2
}

/// An account name that never holds the data separator.
pub open spec fn account_is_valid(account: Seq<u8>) -> bool {
    forall|i: int| 0 <= i < account.len() ==> account[i] != ACCOUNT_DATA_SEPARATOR
}

/// An account name: never holds the data separator, so that one account's keys
/// cannot be read as another's.
#[derive(Clone, Debug)]
pub struct AccountId {
    bytes: Vec<u8>,
}

impl AccountId {
    pub closed spec fn view(&self) -> Seq<u8> {
        self.bytes@
    }

    pub open spec fn wf(&self) -> bool {
        account_is_valid(self@)
    }

    /// Builds an account name; `None` when `bytes` holds the separator.
    pub fn new(bytes: Vec<u8>) -> (r: Option<AccountId>)
        ensures
            match r {
                Some(a) => a.wf() && a@ == bytes@,
                None => exists|i: int| 0 <= i < bytes@.len() && bytes@[i] == ACCOUNT_DATA_SEPARATOR,
            },
    {
        let mut i: usize = 0;
        while i < bytes.len()
            invariant
                0 <= i <= bytes@.len(),
                forall|j: int| 0 <= j < i ==> bytes@[j] != ACCOUNT_DATA_SEPARATOR,
            decreases bytes@.len() - i,
        {
            if bytes[i] == ACCOUNT_DATA_SEPARATOR {
                return None;
            }
            i = i + 1;
        }
        Some(AccountId { bytes })
    }

    pub fn as_bytes(&self) -> (r: &[u8])
        ensures
            r@ == self@,
    {
        self.bytes.as_slice()
    }

    pub fn copy(&self) -> (r: AccountId)
        ensures
            r@ == self@,
    {
        AccountId { bytes: copy_bytes(self.bytes.as_slice()) }
    }
}

/// A structured key of the store, as far as this adapter builds them.
#[derive(Clone, Debug)]
pub enum TrieKey {
    ContractData { account_id: AccountId, key: Vec<u8> },
    ContractCode { account_id: AccountId },
}

impl TrieKey {
    /// The raw key that this key stands for.
    pub open spec fn spec_raw(&self) -> Seq<u8> {
        match self {
            TrieKey::ContractData { account_id, key } => contract_data_key(account_id@, key@),
            TrieKey::ContractCode { account_id } => contract_code_key(account_id@),
        }
    }

    pub fn to_vec(&self) -> (r: Vec<u8>)
        ensures
            r@ == self.spec_raw(),
    {
        match self {
            TrieKey::ContractData { account_id, key } => get_raw_prefix_for_contract_data(
                account_id,
                key.as_slice(),
            ),
            TrieKey::ContractCode { account_id } => {
                let mut r: Vec<u8> = Vec::new();
                r.push(CONTRACT_CODE_COLUMN);
                append(&mut r, account_id.as_bytes());
                r
            },
        }
    }
}

fn append(dst: &mut Vec<u8>, src: &[u8])
    ensures
        final(dst)@ == old(dst)@ + src@,
{
    let ghost start = dst@;
    let mut i: usize = 0;
    while i < src.len()
        invariant
            0 <= i <= src@.len(),
            dst@ == start + src@.subrange(0, i as int),
        decreases src@.len() - i,
    {
        dst.push(src[i]);
        i = i + 1;
        assert(dst@ =~= start + src@.subrange(0, i as int));
    }
    assert(src@.subrange(0, src@.len() as int) =~= src@);
}

/// Raw key prefix shared by every data key of `account` that starts with `prefix`.
pub fn get_raw_prefix_for_contract_data(account: &AccountId, prefix: &[u8]) -> (r: Vec<u8>)
    ensures
        r@ == contract_data_key(account@, prefix@),
{
    let mut r: Vec<u8> = Vec::new();
    r.push(CONTRACT_DATA_COLUMN);
    append(&mut r, account.as_bytes());
    r.push(ACCOUNT_DATA_SEPARATOR);
    append(&mut r, prefix);
    assert(r@ =~= contract_data_key(account@, prefix@));
    r
}

/// The caller's key inside a raw contract data key of `account`: the bytes after
/// column, account and separator. Fails when the raw key is shorter than those.
pub fn parse_data_key_from_contract_data_key(raw_key: &[u8], account: &AccountId) -> (r: Result<
    Vec<u8>,
    StorageError,
>)
    ensures
        match r {
            Ok(k) => raw_key@.len() >= data_key_offset(account@) && k@ == raw_key@.skip(
                data_key_offset(account@),
            ),
            Err(e) => raw_key@.len() < data_key_offset(account@) && e
                == StorageError::StorageInconsistentState,
        },
{
    let n = account.as_bytes().len();
    if n > raw_key.len() || raw_key.len() - n < 2 {
        return Err(StorageError::StorageInconsistentState);
    }
    let start = n + 2;
    let mut r: Vec<u8> = Vec::new();
    let mut i: usize = start;
    while i < raw_key.len()
        invariant
            start <= i <= raw_key@.len(),
            start == data_key_offset(account@),
            r@ == raw_key@.subrange(start as int, i as int),
        decreases raw_key@.len() - i,
    {
        r.push(raw_key[i]);
        i = i + 1;
        assert(r@ =~= raw_key@.subrange(start as int, i as int));
    }
    assert(r@ =~= raw_key@.skip(start as int));
    Ok(r)
}

/// Data keys of two different accounts never coincide, whatever the caller's keys.
pub proof fn lemma_accounts_disjoint(a: Seq<u8>, b: Seq<u8>, ka: Seq<u8>, kb: Seq<u8>)
    requires
        account_is_valid(a),
        account_is_valid(b),
        a != b,
    ensures
        contract_data_key(a, ka) != contract_data_key(b, kb),
{
    let sa = contract_data_key(a, ka);
    let sb = contract_data_key(b, kb);
    if a.len() == b.len() {
        let i = choose|i: int| 0 <= i < a.len() && a[i] != b[i];
        if sa == sb {
            assert(a =~= b) by {
                assert forall|j: int| 0 <= j < a.len() implies a[j] == b[j] by {
                    assert(sa[j + 1] == a[j]);
                    assert(sb[j + 1] == b[j]);
                }
            }
        }
    } else if a.len() < b.len() {
        let n = a.len() as int;
        assert(sa[n + 1] == ACCOUNT_DATA_SEPARATOR);
        assert(sb[n + 1] == b[n]);
    } else {
        let n = b.len() as int;
        assert(sb[n + 1] == ACCOUNT_DATA_SEPARATOR);
        assert(sa[n + 1] == a[n]);
    }
}

/// Within one account, different caller keys give different data keys.
pub proof fn lemma_data_key_injective(account: Seq<u8>, k1: Seq<u8>, k2: Seq<u8>)
    requires
        k1 != k2,
    ensures
        contract_data_key(account, k1) != contract_data_key(account, k2),
{
    let off = data_key_offset(account);
    assert(contract_data_key(account, k1).skip(off) =~= k1);
    assert(contract_data_key(account, k2).skip(off) =~= k2);
}

/// A raw key that extends the data prefix of `account` is rebuilt exactly from
/// the caller's key that parsing returns.
pub proof fn lemma_parse_rebuilds(account: Seq<u8>, prefix: Seq<u8>, raw: Seq<u8>)
    requires
        contract_data_key(account, prefix).is_prefix_of(raw),
    ensures
        raw.len() >= data_key_offset(account),
        contract_data_key(account, raw.skip(data_key_offset(account))) == raw,
{
    let p = contract_data_key(account, prefix);
    let off = data_key_offset(account);
    assert(p.len() >= off);
    assert forall|i: int| 0 <= i < off implies raw[i] == p[i] by {
        assert(p.subrange(0, p.len() as int)[i] == p[i]);
        assert(raw.subrange(0, p.len() as int)[i] == raw[i]);
    }
    assert(contract_data_key(account, raw.skip(off)) =~= raw);
}

} // verus!
