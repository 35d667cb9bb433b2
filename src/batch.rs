//! A fixed-size batch of withdraw slots, the circuit's instance, and the
//! rule that decides whether a witness satisfies it.
use crate::commitment::{calc_tree_root, tree_root};
use crate::crypto::{all_wf, values};
use crate::field::Scalar;
use crate::merkle::{MerkleProof, Siblings};
use crate::transition::{pow4, MpnAccount, Money, Point, Signature, Withdraw, WithdrawTransition};
use vstd::prelude::*;

verus! {

/// A proof of `depth` levels whose siblings are all zero.
fn zero_proof(depth: u8) -> (r: MerkleProof)
    ensures
        r.levels@ == zero_levels(depth as nat),
{
    let mut levels: Vec<Siblings> = Vec::new();
    let mut i: u8 = 0;
    assert(levels@ =~= zero_levels(0));
    while i < depth
        invariant
            i <= depth,
            levels@ == zero_levels(i as nat),
        decreases depth - i,
    {
        levels.push(Siblings { s0: Scalar::zero(), s1: Scalar::zero(), s2: Scalar::zero() });
        i = i + 1;
        assert(levels@ =~= zero_levels(i as nat));
    }
    MerkleProof { levels }
}

impl<const LOG4_TREE_SIZE: u8, const LOG4_TOKENS_TREE_SIZE: u8> WithdrawTransition<
    LOG4_TREE_SIZE,
    LOG4_TOKENS_TREE_SIZE,
> {
    /// The padding slot, fixed in every field: disabled, every field element
    /// zero, every index and amount zero, and every proof of the depth of its
    /// tree with all siblings zero. Its withdraw nonce is zero and its
    /// request's nonce one, so that it meets the nonce check, which binds
    /// every slot.
    pub open spec fn is_padding(self) -> bool {
        &&& !self.enabled
        &&& self.tx == padding_withdraw()
        &&& self.before == (MpnAccount { tx_nonce: 0, withdraw_nonce: 0, address: origin() })
        &&& self.before_token_balance == no_money()
        &&& self.before_fee_balance == no_money()
        &&& self.before_token_hash == Scalar::spec_zero()
        &&& self.proof.levels@ == zero_levels(LOG4_TREE_SIZE as nat)
        &&& self.token_balance_proof.levels@ == zero_levels(LOG4_TOKENS_TREE_SIZE as nat)
        &&& self.fee_balance_proof.levels@ == zero_levels(LOG4_TOKENS_TREE_SIZE as nat)
    }
}

/// The point whose coordinates are both zero.
pub open spec fn origin() -> Point {
    Point { x: Scalar::spec_zero(), y: Scalar::spec_zero() }
}

/// No amount of the zero token.
pub open spec fn no_money() -> Money {
    Money { token_id: Scalar::spec_zero(), amount: 0 }
}

/// Siblings that are all zero.
pub open spec fn zero_siblings() -> Siblings {
    Siblings { s0: Scalar::spec_zero(), s1: Scalar::spec_zero(), s2: Scalar::spec_zero() }
}

/// `depth` levels of zero siblings.
pub open spec fn zero_levels(depth: nat) -> Seq<Siblings> {
    Seq::new(depth, |i: int| zero_siblings())
}

/// The request of the padding slot.
pub open spec fn padding_withdraw() -> Withdraw {
    Withdraw {
        index: 0,
        token_index: 0,
        fee_token_index: 0,
        pub_key: origin(),
        fingerprint: Scalar::spec_zero(),
        nonce: 1,
        sig: Signature { r: origin(), s: Scalar::spec_zero() },
        amount: no_money(),
        fee: no_money(),
    }
}

impl<const LOG4_TREE_SIZE: u8, const LOG4_TOKENS_TREE_SIZE: u8> Default for WithdrawTransition<
    LOG4_TREE_SIZE,
    LOG4_TOKENS_TREE_SIZE,
> {
    fn default() -> (r: Self)
        ensures
            r.is_padding(),
    {
        let zero = Scalar::zero();
        let origin = Point { x: zero, y: zero };
        let nothing = Money { token_id: zero, amount: 0 };
        WithdrawTransition {
            enabled: false,
            tx: Withdraw {
                index: 0,
                token_index: 0,
                fee_token_index: 0,
                pub_key: origin,
                fingerprint: zero,
                nonce: 1,
                sig: Signature { r: origin, s: zero },
                amount: nothing,
                fee: nothing,
            },
            before: MpnAccount { tx_nonce: 0, withdraw_nonce: 0, address: origin },
            before_token_balance: nothing,
            before_fee_balance: nothing,
            proof: zero_proof(LOG4_TREE_SIZE),
            token_balance_proof: zero_proof(LOG4_TOKENS_TREE_SIZE),
            before_token_hash: zero,
            fee_balance_proof: zero_proof(LOG4_TOKENS_TREE_SIZE),
        }
    }
}

/// Every slot of `ts` meets its checks, each against the root left by the
/// slots before it, starting from `root`.
pub open spec fn fold_valid<const T: u8, const K: u8>(
    root: int,
    ts: Seq<WithdrawTransition<T, K>>,
) -> bool
    decreases ts.len(),
{
    if ts.len() == 0 {
        true
    } else {
        ts[0].valid_at(root) && fold_valid(ts[0].step(root), ts.drop_first())
    }
}

/// The root left by the slots of `ts`, in order, starting from `root`.
pub open spec fn fold_root<const T: u8, const K: u8>(
    root: int,
    ts: Seq<WithdrawTransition<T, K>>,
) -> int
    decreases ts.len(),
{
    if ts.len() == 0 {
        root
    } else {
        fold_root(ts[0].step(root), ts.drop_first())
    }
}

/// The commitment leaves of the slots of `ts`.
pub open spec fn commitment_leaves<const T: u8, const K: u8>(
    ts: Seq<WithdrawTransition<T, K>>,
) -> Seq<int> {
    ts.map_values(|t: WithdrawTransition<T, K>| t.commitment_leaf())
}

/// A batch of `4^LOG4_BATCH_SIZE` slots.
#[derive(Clone, Debug)]
pub struct WithdrawTransitionBatch<
    const LOG4_BATCH_SIZE: u8,
    const LOG4_TREE_SIZE: u8,
    const LOG4_TOKENS_TREE_SIZE: u8,
>(pub Vec<WithdrawTransition<LOG4_TREE_SIZE, LOG4_TOKENS_TREE_SIZE>>);

/// Why a witness does not have the circuit's shape.
#[derive(Clone, Copy, Debug, PartialEq, Eq, Structural)]
pub enum ShapeError {
    /// The batch does not hold exactly its capacity of slots.
    BatchSize,
    /// A slot's proof does not span the depth of its tree.
    ProofDepth,
}

impl<
    const LOG4_BATCH_SIZE: u8,
    const LOG4_TREE_SIZE: u8,
    const LOG4_TOKENS_TREE_SIZE: u8,
> WithdrawTransitionBatch<LOG4_BATCH_SIZE, LOG4_TREE_SIZE, LOG4_TOKENS_TREE_SIZE> {
    pub open spec fn slots(self) -> Seq<WithdrawTransition<LOG4_TREE_SIZE, LOG4_TOKENS_TREE_SIZE>> {
        self.0@
    }

    /// The batch's capacity, `4^LOG4_BATCH_SIZE`.
    pub open spec fn capacity() -> nat {
        pow4(LOG4_BATCH_SIZE as nat)
    }

    /// Every field element of every slot is canonical.
    pub open spec fn wf(self) -> bool {
        forall|i: int| 0 <= i < self.slots().len() ==> (#[trigger] self.slots()[i]).wf()
    }

    /// The batch holds exactly its capacity of slots.
    pub open spec fn full(self) -> bool {
        self.slots().len() == Self::capacity()
    }

    /// The batch holds its capacity of slots, each with proofs of the right depth.
    pub open spec fn well_shaped(self) -> bool {
        &&& self.full()
        &&& forall|i: int| 0 <= i < self.slots().len() ==> (#[trigger] self.slots()[i]).well_shaped()
    }

    /// The commitment to the batch's transaction data.
    pub open spec fn commitment_value(self) -> int {
        tree_root(commitment_leaves(self.slots()), LOG4_BATCH_SIZE as nat)
    }

    /// `4^LOG4_BATCH_SIZE`, where it fits in a `usize`.
    pub fn capacity_exec() -> (r: usize)
        requires
            Self::capacity() <= usize::MAX,
        ensures
            r == Self::capacity(),
    {
        let mut r: usize = 1;
        let mut i: u8 = 0;
        while i < LOG4_BATCH_SIZE
            invariant
                i <= LOG4_BATCH_SIZE,
                r == pow4(i as nat),
                pow4(LOG4_BATCH_SIZE as nat) <= usize::MAX,
            decreases LOG4_BATCH_SIZE - i,
        {
            proof {
                lemma_pow4_monotonic((i + 1) as nat, LOG4_BATCH_SIZE as nat);
            }
            r = r * 4;
            i = i + 1;
        }
        r
    }

    /// `4^LOG4_BATCH_SIZE` if it fits in a `usize`.
    pub fn capacity_checked() -> (r: Option<usize>)
        ensures
            r.is_some() == (Self::capacity() <= usize::MAX),
            r.is_some() ==> r.unwrap() == Self::capacity(),
    {
        let mut r: usize = 1;
        let mut i: u8 = 0;
        while i < LOG4_BATCH_SIZE
            invariant
                i <= LOG4_BATCH_SIZE,
                r == pow4(i as nat),
            decreases LOG4_BATCH_SIZE - i,
        {
            if r > usize::MAX / 4 {
                proof {
                    assert(4 * r > usize::MAX) by (nonlinear_arith)
                        requires
                            r > usize::MAX / 4,
                    ;
                    lemma_pow4_monotonic((i + 1) as nat, LOG4_BATCH_SIZE as nat);
                }
                return None;
            }
            r = r * 4;
            i = i + 1;
        }
        Some(r)
    }

    /// The batch of the slots `ts`, followed by padding slots up to the
    /// capacity. Slots past the capacity are kept, never dropped.
    pub fn new(ts: Vec<WithdrawTransition<LOG4_TREE_SIZE, LOG4_TOKENS_TREE_SIZE>>) -> (r: Self)
        requires
            Self::capacity() <= usize::MAX,
        ensures
            r.slots().len() == if ts@.len() < Self::capacity() {
                Self::capacity()
            } else {
                ts@.len()
            },
            r.slots().subrange(0, ts@.len() as int) == ts@,
            forall|i: int| ts@.len() <= i < r.slots().len() ==> (#[trigger] r.slots()[i]).is_padding(),
    {
        let cap = Self::capacity_exec();
        let mut ts = ts;
        let ghost given = ts@;
        while ts.len() < cap
            invariant
                cap == Self::capacity(),
                given.len() <= ts@.len(),
                ts@.len() <= cap || ts@.len() == given.len(),
                ts@.subrange(0, given.len() as int) == given,
                forall|i: int| given.len() <= i < ts@.len() ==> (#[trigger] ts@[i]).is_padding(),
            decreases cap - ts@.len(),
        {
            ts.push(WithdrawTransition::default());
            assert(ts@.subrange(0, given.len() as int) =~= given);
        }
        WithdrawTransitionBatch(ts)
    }

    /// Whether every slot's proofs span the depths of their trees.
    pub fn proofs_well_shaped(&self) -> (r: bool)
        ensures
            r == forall|i: int| 0 <= i < self.slots().len() ==> (#[trigger] self.slots()[i]).well_shaped(),
    {
        let n = self.0.len();
        let mut i: usize = 0;
        while i < n
            invariant
                n == self.slots().len(),
                i <= n,
                forall|k: int| 0 <= k < i ==> (#[trigger] self.slots()[k]).well_shaped(),
            decreases n - i,
        {
            let t = &self.0[i];
            if t.proof.levels.len() != LOG4_TREE_SIZE as usize || t.token_balance_proof.levels.len()
                != LOG4_TOKENS_TREE_SIZE as usize || t.fee_balance_proof.levels.len()
                != LOG4_TOKENS_TREE_SIZE as usize {
                assert(!self.slots()[i as int].well_shaped());
                return false;
            }
            i = i + 1;
        }
        true
    }

    /// Checks every slot in order, threading the account root from `state`,
    /// and gives whether all checks held and the final root.
    pub fn apply(&self, state: &Scalar) -> (r: (bool, Scalar))
        requires
            self.wf(),
            state.wf(),
        ensures
            r.0 == fold_valid(state.fe(), self.slots()),
            r.1.wf(),
            r.1.fe() == fold_root(state.fe(), self.slots()),
    {
        let n = self.0.len();
        let mut valid = true;
        let mut root = *state;
        let mut i: usize = 0;
        assert(self.slots().subrange(0, n as int) =~= self.slots());
        while i < n
            invariant
                n == self.slots().len(),
                i <= n,
                self.wf(),
                root.wf(),
                fold_valid(state.fe(), self.slots()) == (valid && fold_valid(
                    root.fe(),
                    self.slots().subrange(i as int, n as int),
                )),
                fold_root(state.fe(), self.slots()) == fold_root(
                    root.fe(),
                    self.slots().subrange(i as int, n as int),
                ),
            decreases n - i,
        {
            assert(self.slots().subrange(i as int, n as int).drop_first() =~= self.slots().subrange(
                i + 1,
                n as int,
            ));
            let (ok, next) = self.0[i].apply(&root);
            valid = valid && ok;
            root = next;
            i = i + 1;
        }
        assert(self.slots().subrange(n as int, n as int).len() == 0);
        (valid, root)
    }

    /// The commitment to the batch's transaction data.
    pub fn commitment(&self) -> (r: Scalar)
        requires
            self.wf(),
            self.slots().len() == Self::capacity(),
        ensures
            r.wf(),
            r.fe() == self.commitment_value(),
    {
        let n = self.0.len();
        let mut leaves: Vec<Scalar> = Vec::new();
        let mut i: usize = 0;
        while i < n
            invariant
                n == self.slots().len(),
                i <= n,
                self.wf(),
                leaves@.len() == i,
                all_wf(leaves@),
                forall|k: int|
                    0 <= k < i ==> (#[trigger] leaves@[k]).fe() == self.slots()[k].commitment_leaf(),
            decreases n - i,
        {
            leaves.push(self.0[i].commitment_leaf_hash());
            i = i + 1;
        }
        assert(values(leaves@) =~= commitment_leaves(self.slots()));
        calc_tree_root(leaves, LOG4_BATCH_SIZE)
    }
}

impl<
    const LOG4_BATCH_SIZE: u8,
    const LOG4_TREE_SIZE: u8,
    const LOG4_TOKENS_TREE_SIZE: u8,
> Default for WithdrawTransitionBatch<LOG4_BATCH_SIZE, LOG4_TREE_SIZE, LOG4_TOKENS_TREE_SIZE> {
    /// A batch of padding slots only, as many as the capacity. A capacity
    /// that no `usize` can count gives the empty batch.
    fn default() -> (r: Self)
        ensures
            Self::capacity() <= usize::MAX ==> r.full(),
            Self::capacity() > usize::MAX ==> r.slots().len() == 0,
            forall|i: int| 0 <= i < r.slots().len() ==> (#[trigger] r.slots()[i]).is_padding(),
    {
        match Self::capacity_checked() {
            Some(_) => Self::new(Vec::new()),
            None => WithdrawTransitionBatch(Vec::new()),
        }
    }
}

proof fn lemma_pow4_monotonic(a: nat, b: nat)
    requires
        a <= b,
    ensures
        pow4(a) <= pow4(b),
    decreases b,
{
    if a < b {
        lemma_pow4_monotonic(a, (b - 1) as nat);
    }
}

} // verus!
