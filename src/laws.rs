use vstd::prelude::*;

use crate::data_id::data_id_of;
use crate::ext::{cache_after_lookup, code_lookup, without_prefix, RuntimeExt};
use crate::keys::{
    contract_data_key, data_key_offset, lemma_accounts_disjoint, lemma_parse_rebuilds,
};

verus! {

/// Nothing done under one account is observable under another: storing,
/// removing or removing a subtree through adapter `a` leaves every key of
/// adapter `b`'s account as it was, when the two accounts differ.
pub proof fn law_accounts_isolated(
    a: RuntimeExt,
    b: RuntimeExt,
    state: Map<Seq<u8>, Seq<u8>>,
    ka: Seq<u8>,
    prefix: Seq<u8>,
    kb: Seq<u8>,
    value: Seq<u8>,
)
    requires
        a.wf(),
        b.wf(),
        a.spec_account() != b.spec_account(),
    ensures
        ({
            let seen = contract_data_key(b.spec_account(), kb);
            let set = state.insert(contract_data_key(a.spec_account(), ka), value);
            let removed = state.remove(contract_data_key(a.spec_account(), ka));
            let erased = without_prefix(state, contract_data_key(a.spec_account(), prefix));
            &&& set.contains_key(seen) == state.contains_key(seen)
            &&& removed.contains_key(seen) == state.contains_key(seen)
            &&& erased.contains_key(seen) == state.contains_key(seen)
            &&& state.contains_key(seen) ==> set[seen] == state[seen] && removed[seen] == state[seen]
                && erased[seen] == state[seen]
        }),
{
    let acc_a = a.spec_account();
    let acc_b = b.spec_account();
    let seen = contract_data_key(acc_b, kb);
    lemma_accounts_disjoint(acc_a, acc_b, ka, kb);
    if contract_data_key(acc_a, prefix).is_prefix_of(seen) {
        lemma_parse_rebuilds(acc_a, prefix, seen);
        lemma_accounts_disjoint(acc_a, acc_b, seen.skip(data_key_offset(acc_a)), kb);
    }
}

/// Storing `value` under a key and then reading that key yields `value`.
pub proof fn law_set_then_get(state: Map<Seq<u8>, Seq<u8>>, account: Seq<u8>, key: Seq<u8>, value: Seq<u8>)
    ensures
        ({
            let after = state.insert(contract_data_key(account, key), value);
            &&& after.contains_key(contract_data_key(account, key))
            &&& after[contract_data_key(account, key)] == value
        }),
{
}

/// After removing a key it is absent, whether or not it was there before.
pub proof fn law_remove_then_get(state: Map<Seq<u8>, Seq<u8>>, account: Seq<u8>, key: Seq<u8>)
    ensures
        !state.remove(contract_data_key(account, key)).contains_key(contract_data_key(account, key)),
        state.remove(contract_data_key(account, key)).remove(contract_data_key(account, key))
            == state.remove(contract_data_key(account, key)),
{
    assert(state.remove(contract_data_key(account, key)).remove(contract_data_key(account, key))
        =~= state.remove(contract_data_key(account, key)));
}

/// A caller key lies under a caller prefix exactly when its raw key lies under
/// the raw prefix of the same account.
pub proof fn lemma_prefix_lifts(account: Seq<u8>, prefix: Seq<u8>, key: Seq<u8>)
    ensures
        prefix.is_prefix_of(key) == contract_data_key(account, prefix).is_prefix_of(
            contract_data_key(account, key),
        ),
{
    let rp = contract_data_key(account, prefix);
    let rk = contract_data_key(account, key);
    let off = account.len() + 2;
    if prefix.is_prefix_of(key) {
        assert(rk.subrange(0, rp.len() as int) =~= rp) by {
            assert forall|i: int| 0 <= i < rp.len() implies rk[i] == rp[i] by {
                if i >= off {
                    assert(key.subrange(0, prefix.len() as int)[i - off] == key[i - off]);
                }
            }
        }
    }
    if rp.is_prefix_of(rk) {
        assert(key.subrange(0, prefix.len() as int) =~= prefix) by {
            assert forall|i: int| 0 <= i < prefix.len() implies key[i] == prefix[i] by {
                assert(rk.subrange(0, rp.len() as int)[i + off] == rk[i + off]);
            }
        }
    }
}

/// After removing the subtree under `prefix`, no key under the prefix is
/// present, and every key of the account outside it is unchanged.
pub proof fn law_subtree_removed(
    state: Map<Seq<u8>, Seq<u8>>,
    account: Seq<u8>,
    prefix: Seq<u8>,
    key: Seq<u8>,
)
    ensures
        ({
            let after = without_prefix(state, contract_data_key(account, prefix));
            let raw = contract_data_key(account, key);
            &&& prefix.is_prefix_of(key) ==> !after.contains_key(raw)
            &&& !prefix.is_prefix_of(key) ==> after.contains_key(raw) == state.contains_key(raw)
            &&& !prefix.is_prefix_of(key) && state.contains_key(raw) ==> after[raw] == state[raw]
        }),
{
    lemma_prefix_lifts(account, prefix, key);
}

/// Two invocations with the same identity and the same number of ids already
/// generated produce the same next data id.
pub proof fn law_data_id_reproducible(e1: RuntimeExt, e2: RuntimeExt)
    requires
        e1.same_identity(&e2),
        e1.spec_data_count() == e2.spec_data_count(),
    ensures
        data_id_of(
            e1.spec_protocol_version(),
            e1.spec_action_hash(),
            e1.spec_prev_block_hash(),
            e1.spec_last_block_hash(),
            e1.spec_data_count() as nat,
        ) == data_id_of(
            e2.spec_protocol_version(),
            e2.spec_action_hash(),
            e2.spec_prev_block_hash(),
            e2.spec_last_block_hash(),
            e2.spec_data_count() as nat,
        ),
{
}

/// A code lookup that misses the cache but finds code in the store is followed
/// by a hit on the same hash: the same bytecode, whatever the store then holds,
/// and the cache is left as it was.
pub proof fn law_code_cached_after_miss(
    cache: Map<Seq<u8>, Seq<u8>>,
    state: Map<Seq<u8>, Seq<u8>>,
    later_state: Map<Seq<u8>, Seq<u8>>,
    account: Seq<u8>,
    code_hash: Seq<u8>,
)
    requires
        !cache.contains_key(code_hash),
        code_lookup(cache, state, account, code_hash) is Some,
    ensures
        ({
            let filled = cache_after_lookup(cache, state, account, code_hash);
            &&& filled.contains_key(code_hash)
            &&& code_lookup(filled, later_state, account, code_hash) == code_lookup(
                cache,
                state,
                account,
                code_hash,
            )
            &&& cache_after_lookup(filled, later_state, account, code_hash) == filled
        }),
{
}

/// Along any run of operations, each of which keeps the invocation's identity
/// (as every operation of `RuntimeExt` does), the protocol version, account,
/// action hash and block anchors stay those the invocation started with.
pub proof fn law_identity_fixed_along(states: Seq<RuntimeExt>)
    requires
        forall|t: int| 1 <= t < states.len() ==> #[trigger] states[t].same_identity(&states[t - 1]),
    ensures
        forall|t: int| 0 <= t < states.len() ==> #[trigger] states[t].same_identity(&states[0]),
    decreases states.len(),
{
    if states.len() > 1 {
        let init = states.drop_last();
        assert forall|t: int| 1 <= t < init.len() implies #[trigger] init[t].same_identity(&init[t - 1]) by {
            assert(states[t].same_identity(&states[t - 1]));
        }
        law_identity_fixed_along(init);
        let n = states.len() - 1;
        assert(states[n].same_identity(&states[n - 1]));
        assert(init[n - 1].same_identity(&init[0]));
        assert forall|t: int| 0 <= t < states.len() implies #[trigger] states[t].same_identity(&states[0]) by {
            if t < n {
                assert(init[t].same_identity(&init[0]));
            }
        }
    }
}

proof fn lemma_counts_along(states: Seq<RuntimeExt>)
    requires
        forall|t: int| 1 <= t < states.len() ==> #[trigger] states[t].spec_data_count()
            == states[t - 1].spec_data_count() + 1,
    ensures
        forall|t: int| 0 <= t < states.len() ==> #[trigger] states[t].spec_data_count()
            == states[0].spec_data_count() + t,
    decreases states.len(),
{
    if states.len() > 1 {
        let init = states.drop_last();
        assert forall|t: int| 1 <= t < init.len() implies #[trigger] init[t].spec_data_count()
            == init[t - 1].spec_data_count() + 1 by {
            assert(states[t].spec_data_count() == states[t - 1].spec_data_count() + 1);
        }
        lemma_counts_along(init);
        let n = states.len() - 1;
        assert(states[n].spec_data_count() == states[n - 1].spec_data_count() + 1);
        assert(init[n - 1].spec_data_count() == init[0].spec_data_count() + n - 1);
        assert forall|t: int| 0 <= t < states.len() implies #[trigger] states[t].spec_data_count()
            == states[0].spec_data_count() + t by {
            if t < n {
                assert(init[t].spec_data_count() == init[0].spec_data_count() + t);
            }
        }
    }
}

/// Along a run of id generations, call t uses index `start + t`: no index
/// repeats within an invocation, and every call sees the same identity, so the
/// ids are those of distinct indices under one fixed identity.
pub proof fn law_data_id_indices_distinct(states: Seq<RuntimeExt>, i: int, j: int)
    requires
        forall|t: int| 1 <= t < states.len() ==> #[trigger] states[t].same_identity(&states[t - 1]),
        forall|t: int| 1 <= t < states.len() ==> #[trigger] states[t].spec_data_count()
            == states[t - 1].spec_data_count() + 1,
        0 <= i < j < states.len(),
    ensures
        states[i].spec_data_count() < states[j].spec_data_count(),
        states[j].spec_data_count() == states[0].spec_data_count() + j,
        states[i].same_identity(&states[0]),
        states[j].same_identity(&states[0]),
{
    law_identity_fixed_along(states);
    lemma_counts_along(states);
    assert(states[i].spec_data_count() == states[0].spec_data_count() + i);
    assert(states[j].spec_data_count() == states[0].spec_data_count() + j);
}

} // verus!
