//! The records a withdraw batch is made of, and what one slot of the batch
//! checks and computes.
use crate::crypto::{
    eddsa_accepts, hash2, hash5, hash6, hash7, is_on_curve, mimc_of, on_curve, verify_signature,
};
use crate::field::{modulus, Scalar};
use crate::merkle::{calc_root, root_from, MerkleProof};
use vstd::arithmetic::div_mod::{lemma_basic_div, lemma_div_basics, lemma_div_denominator, lemma_div_non_zero};
use vstd::prelude::*;

verus! {

/// `4^n`, the number of leaves of a tree of depth `n`.
pub open spec fn pow4(n: nat) -> nat
    decreases n,
{
    if n == 0 {
        1
    } else {
        4 * pow4((n - 1) as nat)
    }
}

proof fn lemma_pow4_positive(n: nat)
    ensures
        pow4(n) > 0,
    decreases n,
{
    if n > 0 {
        lemma_pow4_positive((n - 1) as nat);
    }
}

/// Whether `index` addresses a leaf of a tree of depth `levels`, that is,
/// fits in `2 * levels` bits.
pub fn index_fits(index: u64, levels: u8) -> (r: bool)
    ensures
        r == (index < pow4(levels as nat)),
{
    let mut q: u64 = index;
    let mut i: u8 = 0;
    proof {
        assert(pow4(0) == 1);
        lemma_div_basics(index as int);
    }
    while i < levels
        invariant
            i <= levels,
            q as int == index as int / pow4(i as nat) as int,
        decreases levels - i,
    {
        proof {
            lemma_pow4_positive(i as nat);
            lemma_div_denominator(index as int, pow4(i as nat) as int, 4);
            assert(pow4((i + 1) as nat) == pow4(i as nat) * 4);
        }
        q = q / 4;
        i = i + 1;
    }
    proof {
        let p = pow4(levels as nat) as int;
        lemma_pow4_positive(levels as nat);
        if index < p {
            lemma_basic_div(index as int, p);
        } else {
            lemma_div_non_zero(index as int, p);
        }
    }
    q == 0
}

/// A point of the curve in affine coordinates.
#[derive(Clone, Copy, Debug)]
pub struct Point {
    pub x: Scalar,
    pub y: Scalar,
}

impl Point {
    pub open spec fn wf(self) -> bool {
        self.x.wf() && self.y.wf()
    }

    pub open spec fn on_curve(self) -> bool {
        on_curve(self.x.fe(), self.y.fe())
    }

    /// Whether the point lies on the curve.
    pub fn is_on_curve(&self) -> (r: bool)
        requires
            self.wf(),
        ensures
            r == self.on_curve(),
    {
        is_on_curve(&self.x, &self.y)
    }
}

/// An EdDSA signature: the nonce point `r` and the scalar `s`.
#[derive(Clone, Copy, Debug)]
pub struct Signature {
    pub r: Point,
    pub s: Scalar,
}

impl Signature {
    pub open spec fn wf(self) -> bool {
        self.r.wf() && self.s.wf()
    }
}

/// An amount of one token.
#[derive(Clone, Copy, Debug)]
pub struct Money {
    pub token_id: Scalar,
    pub amount: u64,
}

impl Money {
    pub open spec fn wf(self) -> bool {
        self.token_id.wf()
    }

    /// The hash of the balance leaf `(token id, amount)`.
    pub open spec fn leaf(self) -> int {
        mimc_of(seq![self.token_id.fe(), self.amount as int])
    }
}

/// An account as the account tree holds it.
#[derive(Clone, Copy, Debug)]
pub struct MpnAccount {
    pub tx_nonce: u32,
    pub withdraw_nonce: u32,
    pub address: Point,
}

/// A withdrawal request.
#[derive(Clone, Copy, Debug)]
pub struct Withdraw {
    pub index: u64,
    pub token_index: u64,
    pub fee_token_index: u64,
    pub pub_key: Point,
    pub fingerprint: Scalar,
    pub nonce: u32,
    pub sig: Signature,
    pub amount: Money,
    pub fee: Money,
}

impl Withdraw {
    pub open spec fn wf(self) -> bool {
        &&& self.pub_key.wf()
        &&& self.fingerprint.wf()
        &&& self.sig.wf()
        &&& self.amount.wf()
        &&& self.fee.wf()
    }

    /// The message that the signature covers: the hash of the fingerprint and the nonce.
    pub open spec fn message(self) -> int {
        mimc_of(seq![self.fingerprint.fe(), self.nonce as int])
    }
}

/// One slot of a batch: a withdrawal, the state it reads, and the proofs of
/// that state, in trees of depth `LOG4_TREE_SIZE` (accounts) and
/// `LOG4_TOKENS_TREE_SIZE` (balances of one account).
#[derive(Clone, Debug)]
pub struct WithdrawTransition<const LOG4_TREE_SIZE: u8, const LOG4_TOKENS_TREE_SIZE: u8> {
    pub enabled: bool,
    pub tx: Withdraw,
    pub before: MpnAccount,
    pub before_token_balance: Money,
    pub before_fee_balance: Money,
    pub proof: MerkleProof,
    pub token_balance_proof: MerkleProof,
    pub before_token_hash: Scalar,
    pub fee_balance_proof: MerkleProof,
}

/// The value of `a - b` in the field.
pub open spec fn field_sub(a: int, b: int) -> int {
    (a - b) % modulus()
}

impl<const LOG4_TREE_SIZE: u8, const LOG4_TOKENS_TREE_SIZE: u8> WithdrawTransition<
    LOG4_TREE_SIZE,
    LOG4_TOKENS_TREE_SIZE,
> {
    /// Every field element of the slot is canonical.
    pub open spec fn wf(self) -> bool {
        &&& self.tx.wf()
        &&& self.before.address.wf()
        &&& self.before_token_balance.wf()
        &&& self.before_fee_balance.wf()
        &&& self.before_token_hash.wf()
        &&& self.proof.wf()
        &&& self.token_balance_proof.wf()
        &&& self.fee_balance_proof.wf()
    }

    /// The proofs span the depths of their trees.
    pub open spec fn well_shaped(self) -> bool {
        &&& self.proof.depth() == LOG4_TREE_SIZE as nat
        &&& self.token_balance_proof.depth() == LOG4_TOKENS_TREE_SIZE as nat
        &&& self.fee_balance_proof.depth() == LOG4_TOKENS_TREE_SIZE as nat
    }

    /// The account leaf before the withdrawal.
    pub open spec fn account_leaf(self) -> int {
        mimc_of(
            seq![
                self.before.tx_nonce as int,
                self.before.withdraw_nonce as int,
                self.before.address.x.fe(),
                self.before.address.y.fe(),
                self.before_token_hash.fe(),
            ],
        )
    }

    /// The balance root once the amount has left the token balance.
    pub open spec fn balance_middle_root(self) -> int {
        root_from(
            self.tx.token_index as nat,
            mimc_of(
                seq![
                    self.before_token_balance.token_id.fe(),
                    field_sub(self.before_token_balance.amount as int, self.tx.amount.amount as int),
                ],
            ),
            self.token_balance_proof.levels@,
        )
    }

    /// The balance root once the fee has left the fee balance as well.
    pub open spec fn balance_final_root(self) -> int {
        root_from(
            self.tx.fee_token_index as nat,
            mimc_of(
                seq![
                    self.before_fee_balance.token_id.fe(),
                    field_sub(self.before_fee_balance.amount as int, self.tx.fee.amount as int),
                ],
            ),
            self.fee_balance_proof.levels@,
        )
    }

    /// The account leaf after the withdrawal: the same account, its
    /// withdraw nonce one higher, over the updated balance root.
    pub open spec fn new_account_leaf(self) -> int {
        mimc_of(
            seq![
                self.before.tx_nonce as int,
                self.before.withdraw_nonce as int + 1,
                self.before.address.x.fe(),
                self.before.address.y.fe(),
                self.balance_final_root(),
            ],
        )
    }

    /// The account root after the withdrawal.
    pub open spec fn candidate_root(self) -> int {
        root_from(self.tx.index as nat, self.new_account_leaf(), self.proof.levels@)
    }

    /// The slot's call data in the commitment: the hash of the key, the
    /// nonce and the signature when enabled, else zero.
    pub open spec fn calldata(self) -> int {
        if self.enabled {
            mimc_of(
                seq![
                    self.tx.pub_key.x.fe(),
                    self.tx.pub_key.y.fe(),
                    self.tx.nonce as int,
                    self.tx.sig.r.x.fe(),
                    self.tx.sig.r.y.fe(),
                    self.tx.sig.s.fe(),
                ],
            )
        } else {
            0
        }
    }

    /// The slot's leaf in the commitment to the batch's transaction data.
    pub open spec fn commitment_leaf(self) -> int {
        mimc_of(
            seq![
                if self.enabled { 1 } else { 0 },
                self.tx.amount.token_id.fe(),
                self.tx.amount.amount as int,
                self.tx.fee.token_id.fe(),
                self.tx.fee.amount as int,
                self.tx.fingerprint.fe(),
                self.calldata(),
            ],
        )
    }

    /// The checks that hold whether or not the slot is enabled.
    pub open spec fn ungated_valid(self) -> bool {
        &&& self.tx.amount.token_id.fe() == self.before_token_balance.token_id.fe()
        &&& self.tx.fee.token_id.fe() == self.before_fee_balance.token_id.fe()
        &&& self.tx.index < pow4(LOG4_TREE_SIZE as nat)
        &&& self.tx.token_index < pow4(LOG4_TOKENS_TREE_SIZE as nat)
        &&& self.tx.fee_token_index < pow4(LOG4_TOKENS_TREE_SIZE as nat)
        &&& self.tx.nonce as int == self.before.withdraw_nonce as int + 1
    }

    /// The checks that hold of an enabled slot, against the account root `root`.
    pub open spec fn enabled_valid(self, root: int) -> bool {
        &&& self.tx.pub_key.on_curve()
        &&& self.tx.sig.r.on_curve()
        &&& self.before.address.on_curve()
        &&& eddsa_accepts(
            self.tx.pub_key.x.fe(),
            self.tx.pub_key.y.fe(),
            self.tx.message(),
            self.tx.sig.r.x.fe(),
            self.tx.sig.r.y.fe(),
            self.tx.sig.s.fe(),
        )
        &&& root_from(
            self.tx.token_index as nat,
            self.before_token_balance.leaf(),
            self.token_balance_proof.levels@,
        ) == self.before_token_hash.fe()
        &&& root_from(
            self.tx.fee_token_index as nat,
            self.before_fee_balance.leaf(),
            self.fee_balance_proof.levels@,
        ) == self.balance_middle_root()
        &&& root_from(self.tx.index as nat, self.account_leaf(), self.proof.levels@) == root
    }

    /// The slot's constraints hold against the account root `root`.
    pub open spec fn valid_at(self, root: int) -> bool {
        self.ungated_valid() && (self.enabled ==> self.enabled_valid(root))
    }

    /// The account root after the slot: the candidate if enabled, else `root`.
    pub open spec fn step(self, root: int) -> int {
        if self.enabled {
            self.candidate_root()
        } else {
            root
        }
    }

    /// The slot's leaf in the commitment. The call data hash is computed
    /// for every slot and selected only for an enabled one.
    pub fn commitment_leaf_hash(&self) -> (r: Scalar)
        requires
            self.wf(),
        ensures
            r.wf(),
            r.fe() == self.commitment_leaf(),
    {
        let tx = &self.tx;
        let calldata_hash = hash6(
            &tx.pub_key.x,
            &tx.pub_key.y,
            &Scalar::from_u64(tx.nonce as u64),
            &tx.sig.r.x,
            &tx.sig.r.y,
            &tx.sig.s,
        );
        let calldata = if self.enabled {
            calldata_hash
        } else {
            Scalar::zero()
        };
        let enabled_value: u64 = if self.enabled {
            1
        } else {
            0
        };
        hash7(
            &Scalar::from_u64(enabled_value),
            &tx.amount.token_id,
            &Scalar::from_u64(tx.amount.amount),
            &tx.fee.token_id,
            &Scalar::from_u64(tx.fee.amount),
            &tx.fingerprint,
            &calldata,
        )
    }

    /// Checks the slot against the account root `root` and gives the root
    /// after it. Every value is computed whether or not the slot is enabled;
    /// the curve, signature and inclusion checks bind only an enabled slot.
    pub fn apply(&self, root: &Scalar) -> (r: (bool, Scalar))
        requires
            self.wf(),
            root.wf(),
        ensures
            r.0 == self.valid_at(root.fe()),
            r.1.wf(),
            r.1.fe() == self.step(root.fe()),
    {
        let tx = &self.tx;
        // Token ids of the request against those of the balances it spends.
        let ids_match = tx.amount.token_id.equals(&self.before_token_balance.token_id)
            && tx.fee.token_id.equals(&self.before_fee_balance.token_id);
        let indices_fit = index_fits(tx.index, LOG4_TREE_SIZE) && index_fits(
            tx.token_index,
            LOG4_TOKENS_TREE_SIZE,
        ) && index_fits(tx.fee_token_index, LOG4_TOKENS_TREE_SIZE);
        let nonce_ok = tx.nonce as u64 == self.before.withdraw_nonce as u64 + 1;

        // Signature over the hash of the fingerprint and the nonce.
        let curves_ok = tx.pub_key.is_on_curve() && tx.sig.r.is_on_curve()
            && self.before.address.is_on_curve();
        let msg = hash2(&tx.fingerprint, &Scalar::from_u64(tx.nonce as u64));
        let sig_ok = curves_ok && verify_signature(
            &tx.pub_key.x,
            &tx.pub_key.y,
            &msg,
            &tx.sig.r.x,
            &tx.sig.r.y,
            &tx.sig.s,
        );

        // The token balance, inside the balance tree the account commits to.
        let token_balance = &self.before_token_balance;
        let token_leaf = hash2(&token_balance.token_id, &Scalar::from_u64(token_balance.amount));
        let token_root = calc_root(tx.token_index, &token_leaf, &self.token_balance_proof);
        let token_in = token_root.equals(&self.before_token_hash);
        let token_left = Scalar::from_u64(token_balance.amount).sub(&Scalar::from_u64(tx.amount.amount));
        let new_token_leaf = hash2(&token_balance.token_id, &token_left);
        let middle_root = calc_root(tx.token_index, &new_token_leaf, &self.token_balance_proof);

        // The fee balance, inside the balance tree once the amount has left.
        let fee_balance = &self.before_fee_balance;
        let fee_leaf = hash2(&fee_balance.token_id, &Scalar::from_u64(fee_balance.amount));
        let fee_root = calc_root(tx.fee_token_index, &fee_leaf, &self.fee_balance_proof);
        let fee_in = fee_root.equals(&middle_root);
        let fee_left = Scalar::from_u64(fee_balance.amount).sub(&Scalar::from_u64(tx.fee.amount));
        let new_fee_leaf = hash2(&fee_balance.token_id, &fee_left);
        let final_root = calc_root(tx.fee_token_index, &new_fee_leaf, &self.fee_balance_proof);

        // The account, inside the current account tree.
        let account = &self.before;
        let account_leaf = hash5(
            &Scalar::from_u64(account.tx_nonce as u64),
            &Scalar::from_u64(account.withdraw_nonce as u64),
            &account.address.x,
            &account.address.y,
            &self.before_token_hash,
        );
        let account_root = calc_root(tx.index, &account_leaf, &self.proof);
        let account_in = account_root.equals(root);

        let new_account_leaf = hash5(
            &Scalar::from_u64(account.tx_nonce as u64),
            &Scalar::from_u64(account.withdraw_nonce as u64 + 1),
            &account.address.x,
            &account.address.y,
            &final_root,
        );
        let candidate = calc_root(tx.index, &new_account_leaf, &self.proof);

        let valid = ids_match && indices_fit && nonce_ok && (!self.enabled || (sig_ok && token_in
            && fee_in && account_in));
        let next = if self.enabled {
            candidate
        } else {
            *root
        };
        (valid, next)
    }
}

} // verus!
