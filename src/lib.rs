//! A verified model of the withdraw batch circuit of a rollup payment
//! network: which witnesses satisfy it, and the account root and the
//! transaction commitment that a batch yields.
//!
//! Field arithmetic, the MiMC hash and EdDSA verification are `zeekit`'s;
//! the base-4 Merkle paths, the commitment tree, the per-slot checks and the
//! fold over the batch are this crate's, each with its contract.
pub mod batch;
pub mod circuit;
pub mod commitment;
pub mod crypto;
pub mod field;
pub mod lemmas;
pub mod merkle;
pub mod transition;

pub use batch::{ShapeError, WithdrawTransitionBatch};
pub use circuit::WithdrawCircuit;
pub use field::Scalar;
pub use merkle::{MerkleProof, Siblings};
pub use transition::{MpnAccount, Money, Point, Signature, Withdraw, WithdrawTransition};
