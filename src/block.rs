//! Blocks, their headers and the hashes that commit to them.
use vstd::prelude::*;

use crate::bytes::{bytes_eq, copy_bytes, hex_ascii, le_bytes, push_all, push_le_bytes};
use crate::crypto::{hex_encode, sha256, sha256_of};
use crate::mempool::{tx_views, Transaction, TransactionView};
use crate::merkle::{hashes_view, reduce_root, root_of_level, zero_root};

verus! {

/// The header of a block. The timestamp is in milliseconds since the Unix
/// epoch.
#[derive(Debug)]
pub struct BlockHeader {
    pub version: u32,
    pub previous_hash: Vec<u8>,
    pub timestamp: i64,
    pub height: u64,
    pub proposer: Vec<u8>,
    pub transaction_root: Vec<u8>,
    pub state_root: Vec<u8>,
    pub evidence_root: Vec<u8>,
    pub validator_hash: Vec<u8>,
    pub consensus_hash: Vec<u8>,
    pub app_hash: Vec<u8>,
}

/// A header, its transactions, and the hex of its transaction and state
/// roots. `merkle_root` is the lowercase hex of the same binary transaction
/// root that the header carries (see `transaction_root`): the tree is built
/// over raw SHA-256 digests, never over their hex text, and a block without
/// transactions has the hex of 32 zero bytes.
#[derive(Debug)]
pub struct Block {
    pub header: BlockHeader,
    pub transactions: Vec<Transaction>,
    pub merkle_root: Vec<u8>,
    pub state_root: Vec<u8>,
}

/// The canonical header bytes: `LE32(version) || previous_hash ||
/// LE64(timestamp) || LE64(height) || proposer || transaction_root ||
/// state_root || evidence_root || validator_hash || consensus_hash ||
/// app_hash`.
pub open spec fn header_bytes(h: BlockHeader) -> Seq<u8> {
    le_bytes(h.version as nat, 4) + h.previous_hash@ + le_bytes((h.timestamp as u64) as nat, 8)
        + le_bytes(h.height as nat, 8) + h.proposer@ + h.transaction_root@ + h.state_root@
        + h.evidence_root@ + h.validator_hash@ + h.consensus_hash@ + h.app_hash@
}

/// The block hash: SHA-256 of the canonical header bytes.
pub open spec fn header_hash(h: BlockHeader) -> Seq<u8> {
    sha256_of(header_bytes(h))
}

/// The transaction root: the balanced reduction of `SHA256(tx.id)` in
/// order, an odd tail paired with itself; 32 zero bytes for no
/// transactions.
pub open spec fn transaction_root(txs: Seq<TransactionView>) -> Seq<u8> {
    if txs.len() == 0 {
        zero_root()
    } else {
        reduce_root(Seq::new(txs.len(), |i: int| sha256_of(txs[i].id)))
    }
}

impl BlockHeader {
    /// The block hash: SHA-256 of the canonical header bytes.
    pub fn calculate_hash(&self) -> (r: Vec<u8>)
        ensures
            r@ == header_hash(*self),
    {
        let mut b: Vec<u8> = Vec::new();
        push_le_bytes(&mut b, self.version as u64, 4);
        push_all(&mut b, &self.previous_hash);
        push_le_bytes(&mut b, self.timestamp as u64, 8);
        push_le_bytes(&mut b, self.height, 8);
        push_all(&mut b, &self.proposer);
        push_all(&mut b, &self.transaction_root);
        push_all(&mut b, &self.state_root);
        push_all(&mut b, &self.evidence_root);
        push_all(&mut b, &self.validator_hash);
        push_all(&mut b, &self.consensus_hash);
        push_all(&mut b, &self.app_hash);
        assert(b@ =~= header_bytes(*self));
        sha256(&b)
    }

    /// A copy of the header.
    pub fn duplicate(&self) -> (r: BlockHeader)
        ensures
            header_bytes(r) == header_bytes(*self),
            r.height == self.height,
            r.state_root@ == self.state_root@,
            r.transaction_root@ == self.transaction_root@,
    {
        BlockHeader {
            version: self.version,
            previous_hash: copy_bytes(&self.previous_hash),
            timestamp: self.timestamp,
            height: self.height,
            proposer: copy_bytes(&self.proposer),
            transaction_root: copy_bytes(&self.transaction_root),
            state_root: copy_bytes(&self.state_root),
            evidence_root: copy_bytes(&self.evidence_root),
            validator_hash: copy_bytes(&self.validator_hash),
            consensus_hash: copy_bytes(&self.consensus_hash),
            app_hash: copy_bytes(&self.app_hash),
        }
    }
}

impl Block {
    /// A block of `transactions` at `height`, proposed by `proposer` at time
    /// `now`: version 1, the transaction root computed, `state_root` as both
    /// state and application hash, the other roots empty.
    pub fn new(
        previous_hash: Vec<u8>,
        height: u64,
        proposer: Vec<u8>,
        transactions: Vec<Transaction>,
        state_root: Vec<u8>,
        now: i64,
    ) -> (r: Block)
        ensures
            r.header.version == 1,
            r.header.previous_hash@ == previous_hash@,
            r.header.timestamp == now,
            r.header.height == height,
            r.header.proposer@ == proposer@,
            r.header.transaction_root@ == transaction_root(tx_views(transactions@)),
            r.header.state_root@ == state_root@,
            r.header.app_hash@ == state_root@,
            r.header.evidence_root@.len() == 0,
            r.header.validator_hash@.len() == 0,
            r.header.consensus_hash@.len() == 0,
            tx_views(r.transactions@) == tx_views(transactions@),
            r.merkle_root@ == hex_ascii(transaction_root(tx_views(transactions@))),
            r.state_root@ == hex_ascii(state_root@),
    {
        let root = calculate_transaction_root(&transactions);
        let header = BlockHeader {
            version: 1,
            previous_hash,
            timestamp: now,
            height,
            proposer,
            transaction_root: copy_bytes(&root),
            state_root: copy_bytes(&state_root),
            evidence_root: Vec::new(),
            validator_hash: Vec::new(),
            consensus_hash: Vec::new(),
            app_hash: copy_bytes(&state_root),
        };
        Block { header, transactions, merkle_root: hex_encode(&root), state_root: hex_encode(&state_root) }
    }

    /// Checks the block's structure at time `now`: it holds at least one
    /// transaction, its `merkle_root` is the hex of the transaction root,
    /// and its timestamp is not in the future.
    pub fn validate(&self, now: i64) -> (r: Result<(), String>)
        ensures
            r is Ok <==> (self.transactions@.len() > 0 && self.merkle_root@ == hex_ascii(
                transaction_root(tx_views(self.transactions@)),
            ) && self.header.timestamp <= now),
    {
        if self.transactions.len() == 0 {
            return Err("Block must contain at least one transaction".to_owned());
        }
        let root = calculate_transaction_root(&self.transactions);
        let hex = hex_encode(&root);
        if !bytes_eq(&hex, &self.merkle_root) {
            return Err("Invalid merkle root".to_owned());
        }
        if self.header.timestamp > now {
            return Err("Block timestamp is in the future".to_owned());
        }
        Ok(())
    }

    /// The block hash: the hash of its header.
    pub fn hash(&self) -> (r: Vec<u8>)
        ensures
            r@ == header_hash(self.header),
    {
        self.header.calculate_hash()
    }
}

/// The transaction root of `transactions` (see `transaction_root`).
pub fn calculate_transaction_root(transactions: &Vec<Transaction>) -> (r: Vec<u8>)
    ensures
        r@ == transaction_root(tx_views(transactions@)),
{
    if transactions.len() == 0 {
        let z = vec![0u8; 32];
        assert(z@ =~= zero_root());
        return z;
    }
    let ghost txs = tx_views(transactions@);
    let mut hashes: Vec<Vec<u8>> = Vec::new();
    let mut i: usize = 0;
    while i < transactions.len()
        invariant
            txs == tx_views(transactions@),
            0 <= i <= transactions@.len(),
            hashes@.len() == i,
            forall|j: int| 0 <= j < i ==> (#[trigger] hashes@[j])@ == sha256_of(txs[j].id),
        decreases transactions@.len() - i,
    {
        hashes.push(sha256(&transactions[i].id));
        i = i + 1;
    }
    assert(hashes_view(hashes@) =~= Seq::new(txs.len(), |i: int| sha256_of(txs[i].id)));
    root_of_level(hashes)
}

} // verus!
