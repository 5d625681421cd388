//! Votes, proposals, commits, the consensus messages that carry them, and
//! the canonical bytes they are signed over.
use vstd::prelude::*;

use crate::block::Block;
use crate::bytes::{copy_bytes, decimal, hex_ascii, push_all, push_decimal};
use crate::crypto::hex_encode;
use crate::error::ConsensusError;

verus! {

/// A validator's vote for a block at a height and round; an empty
/// `block_hash` is a nil-vote. The signature is over
/// `"{height}:{round}:{hex(block_hash)}"`.
#[derive(Debug)]
pub struct Vote {
    pub validator: Vec<u8>,
    pub height: u64,
    pub round: u32,
    pub block_hash: Vec<u8>,
    pub timestamp: i64,
    pub signature: Vec<u8>,
}

/// What a vote holds, as plain values.
pub struct VoteView {
    pub validator: Seq<u8>,
    pub height: u64,
    pub round: u32,
    pub block_hash: Seq<u8>,
    pub timestamp: i64,
    pub signature: Seq<u8>,
}

impl View for Vote {
    type V = VoteView;

    open spec fn view(&self) -> VoteView {
        VoteView {
            validator: self.validator@,
            height: self.height,
            round: self.round,
            block_hash: self.block_hash@,
            timestamp: self.timestamp,
            signature: self.signature@,
        }
    }
}

/// The views of a vector of votes.
pub open spec fn vote_views(vs: Seq<Vote>) -> Seq<VoteView> {
    Seq::new(vs.len(), |i: int| vs[i]@)
}

impl Vote {
    /// A copy of the vote.
    pub fn duplicate(&self) -> (r: Vote)
        ensures
            r@ == self@,
    {
        Vote {
            validator: copy_bytes(&self.validator),
            height: self.height,
            round: self.round,
            block_hash: copy_bytes(&self.block_hash),
            timestamp: self.timestamp,
            signature: copy_bytes(&self.signature),
        }
    }
}

/// A copy of a vector of votes.
pub fn duplicate_votes(vs: &Vec<Vote>) -> (r: Vec<Vote>)
    ensures
        vote_views(r@) == vote_views(vs@),
{
    let mut r: Vec<Vote> = Vec::new();
    let mut i: usize = 0;
    while i < vs.len()
        invariant
            0 <= i <= vs@.len(),
            r@.len() == i,
            forall|j: int| 0 <= j < i ==> (#[trigger] r@[j])@ == vs@[j]@,
        decreases vs@.len() - i,
    {
        r.push(vs[i].duplicate());
        i = i + 1;
    }
    assert(vote_views(r@) =~= vote_views(vs@));
    r
}

/// A block proposed by `proposer` for a height and round. The signature is
/// over `"{height}:{round}:{hex(block_hash)}"`.
#[derive(Debug)]
pub struct Proposal {
    pub proposer: Vec<u8>,
    pub height: u64,
    pub round: u32,
    pub block: Block,
    pub timestamp: i64,
    pub signature: Vec<u8>,
}

/// The quorum of votes that finalized a block at a height and round.
#[derive(Debug)]
pub struct Commit {
    pub height: u64,
    pub round: u32,
    pub block_hash: Vec<u8>,
    pub votes: Vec<Vote>,
    pub timestamp: i64,
    pub signature: Vec<u8>,
}

/// What every consensus message carries.
#[derive(Debug)]
pub struct MessageMetadata {
    pub height: u64,
    pub round: u32,
    pub sender: Vec<u8>,
    pub signature: Vec<u8>,
    pub block_hash: Option<Vec<u8>>,
}

/// The consensus messages exchanged between nodes.
#[derive(Debug)]
pub enum ConsensusMessage {
    NewRound { metadata: MessageMetadata },
    Proposal { metadata: MessageMetadata, block: Block, proposer: Vec<u8> },
    Vote { metadata: MessageMetadata, block_hash: Vec<u8>, voter: Vec<u8> },
    Commit { metadata: MessageMetadata, votes: Vec<Vote> },
    Evidence { metadata: MessageMetadata, block_hash: Vec<u8>, voter: Vec<u8> },
}

/// The kinds of consensus message.
#[derive(Debug, Clone, Copy, PartialEq, Eq, Structural)]
pub enum MessageType {
    Proposal,
    Vote,
    Evidence,
    NewRound,
    Commit,
}

impl ConsensusMessage {
    pub open spec fn metadata(&self) -> MessageMetadata {
        match self {
            ConsensusMessage::NewRound { metadata } => *metadata,
            ConsensusMessage::Proposal { metadata, .. } => *metadata,
            ConsensusMessage::Vote { metadata, .. } => *metadata,
            ConsensusMessage::Commit { metadata, .. } => *metadata,
            ConsensusMessage::Evidence { metadata, .. } => *metadata,
        }
    }

    /// The metadata of the message.
    pub fn get_metadata(&self) -> (r: &MessageMetadata)
        ensures
            *r == self.metadata(),
    {
        match self {
            ConsensusMessage::NewRound { metadata } => metadata,
            ConsensusMessage::Proposal { metadata, .. } => metadata,
            ConsensusMessage::Vote { metadata, .. } => metadata,
            ConsensusMessage::Commit { metadata, .. } => metadata,
            ConsensusMessage::Evidence { metadata, .. } => metadata,
        }
    }

    pub fn get_height(&self) -> (r: u64)
        ensures
            r == self.metadata().height,
    {
        self.get_metadata().height
    }

    pub fn get_round(&self) -> (r: u32)
        ensures
            r == self.metadata().round,
    {
        self.get_metadata().round
    }

    pub fn get_sender(&self) -> (r: &Vec<u8>)
        ensures
            *r == self.metadata().sender,
    {
        &self.get_metadata().sender
    }

    pub fn get_signature(&self) -> (r: &Vec<u8>)
        ensures
            *r == self.metadata().signature,
    {
        &self.get_metadata().signature
    }

    /// The kind of the message.
    pub fn message_type(&self) -> (r: MessageType)
        ensures
            r == (match self {
                ConsensusMessage::NewRound { .. } => MessageType::NewRound,
                ConsensusMessage::Proposal { .. } => MessageType::Proposal,
                ConsensusMessage::Vote { .. } => MessageType::Vote,
                ConsensusMessage::Commit { .. } => MessageType::Commit,
                ConsensusMessage::Evidence { .. } => MessageType::Evidence,
            }),
    {
        match self {
            ConsensusMessage::NewRound { .. } => MessageType::NewRound,
            ConsensusMessage::Proposal { .. } => MessageType::Proposal,
            ConsensusMessage::Vote { .. } => MessageType::Vote,
            ConsensusMessage::Commit { .. } => MessageType::Commit,
            ConsensusMessage::Evidence { .. } => MessageType::Evidence,
        }
    }
}

/// `"{height}:{round}:{hex(block_hash)}"`: what votes and proposals are
/// signed over.
pub open spec fn vote_message(height: u64, round: u32, block_hash: Seq<u8>) -> Seq<u8> {
    decimal(height as nat) + seq![58u8] + decimal(round as nat) + seq![58u8] + hex_ascii(block_hash)
}

/// `"{height}:{hex(block_hash)}"`: what the votes of a commit are checked
/// against.
pub open spec fn commit_vote_message(height: u64, block_hash: Seq<u8>) -> Seq<u8> {
    decimal(height as nat) + seq![58u8] + hex_ascii(block_hash)
}

/// The bytes a vote or proposal is signed over.
pub fn build_vote_message(height: u64, round: u32, block_hash: &[u8]) -> (r: Vec<u8>)
    ensures
        r@ == vote_message(height, round, block_hash@),
{
    let mut m: Vec<u8> = Vec::new();
    push_decimal(&mut m, height);
    m.push(58u8);
    push_decimal(&mut m, round as u64);
    m.push(58u8);
    let h = hex_encode(block_hash);
    push_all(&mut m, &h);
    assert(m@ =~= vote_message(height, round, block_hash@));
    m
}

/// The bytes the votes of a commit are checked against.
pub fn build_commit_vote_message(height: u64, block_hash: &[u8]) -> (r: Vec<u8>)
    ensures
        r@ == commit_vote_message(height, block_hash@),
{
    let mut m: Vec<u8> = Vec::new();
    push_decimal(&mut m, height);
    m.push(58u8);
    let h = hex_encode(block_hash);
    push_all(&mut m, &h);
    assert(m@ =~= commit_vote_message(height, block_hash@));
    m
}

/// The estimated wire size of a vote: height, round, block hash, timestamp,
/// validator key and signature.
pub const VOTE_SIZE: usize = 148;

/// The estimated wire size of a transaction inside a proposal, where id,
/// sender and receiver travel as hex text (two characters per byte): those
/// three, two amounts, a timestamp and the signature.
pub open spec fn tx_size(id_len: nat, sender_len: nat, receiver_len: nat, signature_len: nat) -> nat {
    2 * id_len + 2 * sender_len + 2 * receiver_len + 24 + signature_len
}

/// The estimated wire size of a message, in bytes.
pub open spec fn message_size(m: ConsensusMessage) -> nat {
    match m {
        ConsensusMessage::NewRound { .. } => 108,
        ConsensusMessage::Proposal { block, .. } => 116 + proposal_payload(block.transactions@),
        ConsensusMessage::Vote { .. } => 148,
        ConsensusMessage::Commit { votes, .. } => 116 + 148 * votes@.len(),
        ConsensusMessage::Evidence { .. } => 117,
    }
}

/// The sum of the transaction sizes.
pub open spec fn proposal_payload(txs: Seq<crate::mempool::Transaction>) -> nat
    decreases txs.len(),
{
    if txs.len() == 0 {
        0
    } else {
        proposal_payload(txs.drop_last()) + tx_size(
            txs.last().id@.len(),
            txs.last().sender@.len(),
            txs.last().receiver@.len(),
            txs.last().signature@.len(),
        )
    }
}

/// The estimated wire size of a message; `InternalError` when it exceeds
/// `usize`.
pub fn calculate_message_size(m: &ConsensusMessage) -> (r: Result<usize, ConsensusError>)
    ensures
        message_size(*m) <= usize::MAX ==> r == Ok::<usize, ConsensusError>(message_size(*m) as usize),
        message_size(*m) > usize::MAX ==> r is Err,
{
    match m {
        ConsensusMessage::NewRound { .. } => Ok(108),
        ConsensusMessage::Vote { .. } => Ok(148),
        ConsensusMessage::Evidence { .. } => Ok(117),
        ConsensusMessage::Commit { votes, .. } => {
            let n = votes.len();
            if n > (usize::MAX - 116) / VOTE_SIZE {
                assert(148 * n > usize::MAX - 116) by (nonlinear_arith)
                    requires
                        n > (usize::MAX - 116) / 148,
                ;
                return Err(ConsensusError::InternalError("message too large".to_owned()));
            }
            assert(148 * n <= usize::MAX - 116) by (nonlinear_arith)
                requires
                    n <= (usize::MAX - 116) / 148,
            ;
            Ok(116 + VOTE_SIZE * n)
        },
        ConsensusMessage::Proposal { block, .. } => {
            assert(message_size(*m) == 116 + proposal_payload(block.transactions@));
            match proposal_size(&block.transactions) {
                Some(n) => Ok(n),
                None => Err(ConsensusError::InternalError("message too large".to_owned())),
            }
        },
    }
}

/// The estimated wire size of a proposal carrying `txs`: 116 bytes of
/// header fields and signature plus each transaction's size; `None` when it
/// exceeds `usize`.
pub fn proposal_size(txs: &Vec<crate::mempool::Transaction>) -> (r: Option<usize>)
    ensures
        116 + proposal_payload(txs@) <= usize::MAX ==> r == Some((116 + proposal_payload(txs@)) as usize),
        116 + proposal_payload(txs@) > usize::MAX ==> r is None,
{
    let mut total: usize = 116;
    let mut i: usize = 0;
    while i < txs.len()
        invariant
            0 <= i <= txs@.len(),
            total == 116 + proposal_payload(txs@.subrange(0, i as int)),
        decreases txs@.len() - i,
    {
        assert(txs@.subrange(0, i + 1).drop_last() =~= txs@.subrange(0, i as int));
        assert(txs@.subrange(0, i + 1).last() == txs@[i as int]);
        let t = &txs[i];
        let add: u128 = 24 + 2 * t.id.len() as u128 + 2 * t.sender.len() as u128 + 2 * t.receiver.len() as u128
            + t.signature.len() as u128;
        if add > usize::MAX as u128 - total as u128 {
            proof {
                lemma_payload_prefix_le(txs@, i + 1);
            }
            return None;
        }
        total = total + add as usize;
        i = i + 1;
    }
    assert(txs@.subrange(0, i as int) =~= txs@);
    Some(total)
}

proof fn lemma_payload_prefix_le(txs: Seq<crate::mempool::Transaction>, k: int)
    requires
        0 <= k <= txs.len(),
    ensures
        proposal_payload(txs.subrange(0, k)) <= proposal_payload(txs),
    decreases txs.len(),
{
    if k < txs.len() {
        lemma_payload_prefix_le(txs.drop_last(), k);
        assert(txs.drop_last().subrange(0, k) =~= txs.subrange(0, k));
    } else {
        assert(txs.subrange(0, k) =~= txs);
    }
}

} // verus!
