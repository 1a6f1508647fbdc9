//! The errors of the ledger.

use vstd::prelude::*;

verus! {

/// Why a registry operation, a tree lookup or a transaction failed.
#[derive(Clone, Copy, Debug, PartialEq, Eq, Structural)]
pub enum Error {
    UnknownContract,
    DuplicateContract,
    TypeMismatch,
    StalePosition,
    UnknownRoot,
    InsufficientBalance,
    DoubleSpend,
    BadAuthenticationPath,
    BelowProposerLimit,
    QuorumNotMet,
    RatioNotMet,
    SpendHookMismatch,
    ProposalAlreadyExecuted,
    UnknownProposal,
    ProofVerificationFailed,
    SignatureVerificationFailed,
    DecryptionError,
    /// A public key or commitment that encodes no curve point.
    InvalidPoint,
}

} // verus!
