//! What holds of every batch: how disabled slots, a single enabled slot and
//! a failed check bear on the fold and on the circuit.
use crate::batch::{commitment_leaves, fold_root, fold_valid};
use crate::circuit::WithdrawCircuit;
use crate::commitment::tree_root;
use crate::crypto::mimc_of;
use crate::merkle::root_from;
use crate::transition::WithdrawTransition;
use vstd::prelude::*;

verus! {

/// Disabled slots never move the account root.
pub proof fn lemma_disabled_slots_keep_root<const T: u8, const K: u8>(
    root: int,
    ts: Seq<WithdrawTransition<T, K>>,
)
    requires
        forall|i: int| 0 <= i < ts.len() ==> !(#[trigger] ts[i]).enabled,
    ensures
        fold_root(root, ts) == root,
    decreases ts.len(),
{
    if ts.len() > 0 {
        assert(!ts[0].enabled);
        assert forall|i: int| 0 <= i < ts.drop_first().len() implies !(
        #[trigger] ts.drop_first()[i]).enabled by {
            assert(ts.drop_first()[i] == ts[i + 1]);
        }
        lemma_disabled_slots_keep_root(root, ts.drop_first());
    }
}

/// A satisfied circuit whose slots are all disabled claims the root it
/// started from, and commits to slots whose call data is zero.
pub proof fn lemma_all_disabled_circuit<const B: u8, const T: u8, const K: u8>(
    c: WithdrawCircuit<B, T, K>,
)
    requires
        c.satisfied(),
        forall|i: int|
            0 <= i < c.transitions.slots().len() ==> !(#[trigger] c.transitions.slots()[i]).enabled,
    ensures
        c.next_state.fe() == c.state.fe(),
        c.aux_data.fe() == tree_root(commitment_leaves(c.transitions.slots()), B as nat),
        forall|i: int|
            0 <= i < c.transitions.slots().len() ==> (#[trigger] c.transitions.slots()[i]).calldata()
                == 0,
{
    lemma_disabled_slots_keep_root(c.state.fe(), c.transitions.slots());
}

/// With one enabled slot and the others disabled, the fold ends at that
/// slot's candidate root: its account leaf, with decremented balances and
/// the withdraw nonce incremented, hashed up its own proof. A valid fold
/// checks that slot against the starting root.
pub proof fn lemma_single_enabled<const T: u8, const K: u8>(
    root: int,
    ts: Seq<WithdrawTransition<T, K>>,
    k: int,
)
    requires
        0 <= k < ts.len(),
        ts[k].enabled,
        forall|i: int| 0 <= i < ts.len() && i != k ==> !(#[trigger] ts[i]).enabled,
    ensures
        fold_root(root, ts) == ts[k].candidate_root(),
        fold_valid(root, ts) ==> ts[k].valid_at(root),
    decreases ts.len(),
{
    let rest = ts.drop_first();
    if k == 0 {
        assert forall|i: int| 0 <= i < rest.len() implies !(#[trigger] rest[i]).enabled by {
            assert(rest[i] == ts[i + 1]);
        }
        lemma_disabled_slots_keep_root(ts[0].step(root), rest);
    } else {
        assert(!ts[0].enabled);
        assert(rest[k - 1] == ts[k]);
        assert forall|i: int| 0 <= i < rest.len() && i != k - 1 implies !(
        #[trigger] rest[i]).enabled by {
            assert(rest[i] == ts[i + 1]);
        }
        lemma_single_enabled(root, rest, k - 1);
    }
}

/// A valid enabled slot swaps one leaf along one path: the root it starts
/// from holds the account's leaf at its index, and the root it leaves holds,
/// at the same index and under the same siblings, the leaf of the same
/// account with its withdraw nonce one higher over the updated balances.
pub proof fn lemma_enabled_slot_replaces_leaf<const T: u8, const K: u8>(
    root: int,
    t: WithdrawTransition<T, K>,
)
    requires
        t.enabled,
        t.valid_at(root),
    ensures
        root == root_from(t.tx.index as nat, t.account_leaf(), t.proof.levels@),
        t.step(root) == root_from(
            t.tx.index as nat,
            mimc_of(
                seq![
                    t.before.tx_nonce as int,
                    t.before.withdraw_nonce as int + 1,
                    t.before.address.x.fe(),
                    t.before.address.y.fe(),
                    t.balance_final_root(),
                ],
            ),
            t.proof.levels@,
        ),
        t.tx.nonce as int == t.before.withdraw_nonce as int + 1,
{
}

/// A slot that fails a check that binds every slot (token ids, index
/// widths, nonce) makes the whole fold fail, whatever the starting root.
pub proof fn lemma_failed_slot_fails_fold<const T: u8, const K: u8>(
    root: int,
    ts: Seq<WithdrawTransition<T, K>>,
    k: int,
)
    requires
        0 <= k < ts.len(),
        !ts[k].ungated_valid(),
    ensures
        !fold_valid(root, ts),
    decreases ts.len(),
{
    if k > 0 {
        assert(ts.drop_first()[k - 1] == ts[k]);
        lemma_failed_slot_fails_fold(ts[0].step(root), ts.drop_first(), k - 1);
    }
}

/// A request whose nonce is not the account's withdraw nonce plus one
/// leaves the circuit unsatisfiable, however valid the rest of it.
pub proof fn lemma_nonce_replay<const B: u8, const T: u8, const K: u8>(
    c: WithdrawCircuit<B, T, K>,
    k: int,
)
    requires
        0 <= k < c.transitions.slots().len(),
        c.transitions.slots()[k].tx.nonce as int != c.transitions.slots()[k].before.withdraw_nonce
            as int + 1,
    ensures
        !c.satisfied(),
{
    lemma_failed_slot_fails_fold(c.state.fe(), c.transitions.slots(), k);
}

/// A request whose amount or fee names another token than the balance it
/// spends leaves the circuit unsatisfiable.
pub proof fn lemma_token_id_mismatch<const B: u8, const T: u8, const K: u8>(
    c: WithdrawCircuit<B, T, K>,
    k: int,
)
    requires
        0 <= k < c.transitions.slots().len(),
        c.transitions.slots()[k].tx.amount.token_id.fe()
            != c.transitions.slots()[k].before_token_balance.token_id.fe()
            || c.transitions.slots()[k].tx.fee.token_id.fe()
            != c.transitions.slots()[k].before_fee_balance.token_id.fe(),
    ensures
        !c.satisfied(),
{
    lemma_failed_slot_fails_fold(c.state.fe(), c.transitions.slots(), k);
}

} // verus!
