//! The withdraw circuit's instance: public inputs and the private batch.
use crate::batch::{fold_root, fold_valid, ShapeError, WithdrawTransitionBatch};
use crate::field::Scalar;
use vstd::prelude::*;

verus! {

/// An instance of the withdraw circuit. `height`, `state`, `aux_data` and
/// `next_state` are its public inputs; the batch is its private witness.
#[derive(Clone, Debug)]
pub struct WithdrawCircuit<
    const LOG4_BATCH_SIZE: u8,
    const LOG4_TREE_SIZE: u8,
    const LOG4_TOKENS_TREE_SIZE: u8,
> {
    pub height: u64,
    pub state: Scalar,
    pub aux_data: Scalar,
    pub next_state: Scalar,
    pub transitions: Box<
        WithdrawTransitionBatch<LOG4_BATCH_SIZE, LOG4_TREE_SIZE, LOG4_TOKENS_TREE_SIZE>,
    >,
}

impl<
    const LOG4_BATCH_SIZE: u8,
    const LOG4_TREE_SIZE: u8,
    const LOG4_TOKENS_TREE_SIZE: u8,
> WithdrawCircuit<LOG4_BATCH_SIZE, LOG4_TREE_SIZE, LOG4_TOKENS_TREE_SIZE> {
    /// Every field element of the instance is canonical.
    pub open spec fn wf(self) -> bool {
        &&& self.state.wf()
        &&& self.aux_data.wf()
        &&& self.next_state.wf()
        &&& self.transitions.wf()
    }

    /// The witness satisfies every constraint: each slot's checks hold along
    /// the fold from `state`, the fold ends at `next_state`, and the batch's
    /// commitment is `aux_data`. `height` is not constrained.
    pub open spec fn satisfied(self) -> bool {
        let ts = self.transitions.slots();
        &&& fold_valid(self.state.fe(), ts)
        &&& fold_root(self.state.fe(), ts) == self.next_state.fe()
        &&& self.transitions.commitment_value() == self.aux_data.fe()
    }

    /// Rejects a witness of the wrong shape; otherwise decides whether it
    /// satisfies the circuit.
    pub fn check(&self) -> (r: Result<bool, ShapeError>)
        requires
            self.wf(),
            WithdrawTransitionBatch::<
                LOG4_BATCH_SIZE,
                LOG4_TREE_SIZE,
                LOG4_TOKENS_TREE_SIZE,
            >::capacity() <= usize::MAX,
        ensures
            match r {
                Ok(b) => self.transitions.well_shaped() && b == self.satisfied(),
                Err(ShapeError::BatchSize) => !self.transitions.full(),
                Err(ShapeError::ProofDepth) => self.transitions.full()
                    && !self.transitions.well_shaped(),
            },
    {
        let batch = &*self.transitions;
        let cap = WithdrawTransitionBatch::<
            LOG4_BATCH_SIZE,
            LOG4_TREE_SIZE,
            LOG4_TOKENS_TREE_SIZE,
        >::capacity_exec();
        if batch.0.len() != cap {
            return Err(ShapeError::BatchSize);
        }
        if !batch.proofs_well_shaped() {
            return Err(ShapeError::ProofDepth);
        }
        let (valid, root) = batch.apply(&self.state);
        let commitment = batch.commitment();
        Ok(valid && root.equals(&self.next_state) && commitment.equals(&self.aux_data))
    }
}

} // verus!
