//! The error kinds of the consensus core.
use vstd::prelude::*;

verus! {

/// Why an input was rejected or an operation failed. Every kind but the last
/// three means "reject this input and carry on".
#[derive(Debug, Clone)]
pub enum ConsensusError {
    InvalidValidator(String),
    InvalidVotingPower(String),
    InvalidEvidence(String),
    RoundTimeout(String),
    InvalidBlock(String),
    NetworkError(String),
    StateError(String),
    InvalidVote(String),
    InvalidProposal(String),
    InvalidCommit(String),
    InternalError(String),
    InvalidSignature(String),
    InvalidState(String),
    InvalidTransaction(String),
    MempoolError(String),
    SecurityError(String),
}

} // verus!
