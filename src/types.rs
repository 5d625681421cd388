//! Plain records of the transaction API and the peer and state layers
//! around the consensus core.
use vstd::prelude::*;

verus! {

/// Where a transaction stands.
#[derive(Debug, Clone, Copy, PartialEq, Eq, Structural)]
pub enum TransactionStatus {
    Pending,
    Confirmed,
    Failed,
    Reverted,
}

/// Why a transaction was refused.
#[derive(Debug)]
pub enum TransactionError {
    InvalidSignature(String),
    InvalidNonce(String),
    ValidationError(String),
    SecurityError(String),
    SerializationError(String),
}

/// What a client sends to submit a transaction.
#[derive(Debug)]
pub struct CreateTransactionRequest {
    pub sender: String,
    pub recipient: String,
    pub amount: u64,
    pub data: Option<Vec<u8>>,
    pub gas_limit: u64,
    pub gas_price: u64,
    pub chain_id: u64,
}

/// A log entry emitted by a transaction.
#[derive(Debug)]
pub struct TransactionLog {
    pub address: String,
    pub topics: Vec<String>,
    pub data: Vec<u8>,
}

/// The outcome of an executed transaction.
#[derive(Debug)]
pub struct TransactionReceipt {
    pub transaction_id: String,
    pub status: TransactionStatus,
    pub gas_used: u64,
    pub block_number: u64,
    pub block_hash: String,
    pub logs: Vec<TransactionLog>,
    pub error_message: Option<String>,
}

/// Why the peer layer failed.
#[derive(Debug)]
pub enum NetworkError {
    ConnectionError(String),
    MessageError(String),
    PeerError(String),
    RateLimitExceeded(String),
    BandwidthExceeded(String),
    InternalError(String),
}

/// The kinds of misbehaviour the security layer reports.
#[derive(Debug, Clone, Copy, PartialEq, Eq, Structural)]
pub enum SlashingEvidenceType {
    DoubleSigning,
    InvalidBlock,
    InvalidVote,
    UnauthorizedProposal,
}

/// How far the node is from the network's head.
#[derive(Debug, Clone, Copy, PartialEq, Eq, Structural)]
pub enum SyncStatus {
    Synced,
    Syncing(u64),
    NotSynced,
}

/// What an account may do.
#[derive(Debug, Clone, Copy, PartialEq, Eq, Structural)]
pub enum Permission {
    Transfer,
    DeployContract,
    CallContract,
    Vote,
    Propose,
    Admin,
}

/// One key written by a state transition.
#[derive(Debug)]
pub struct StateChange {
    pub key: String,
    pub value: String,
}

} // verus!
