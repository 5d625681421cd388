//! The consensus engine: the height/round/step state machine that turns
//! proposals and votes into commits. It does no I/O: messages it broadcasts
//! are queued in `outbox` for the transport, and every handler is told the
//! time.
use vstd::prelude::*;

use crate::block::{calculate_transaction_root, header_hash, transaction_root, Block, BlockHeader};
use crate::bytes::{bytes_eq, copy_bytes, decimal, hex_ascii, push_all, push_decimal};
use crate::crypto::{check_signature, ed25519_sign, ed25519_signature_of, hex_encode, signature_check};
use crate::error::ConsensusError;
use crate::evidence::{
    default_slashing_conditions, process_all, Evidence, EvidencePool, EvidenceType, EvidenceView, SlashingCondition,
};
use crate::mempool::{top_picks, tx_views, Mempool, Transaction, TransactionView};
use crate::merkle::MerkleTree;
use crate::message::{
    build_commit_vote_message, build_vote_message, commit_vote_message, duplicate_votes, proposal_payload,
    proposal_size, vote_message,
    vote_views, Commit, ConsensusMessage, MessageMetadata, Proposal, Vote, VoteView,
};
use crate::validator::{
    has_validator, is_proposer_index, validator_index, with_priorities, ValidatorSet, ValidatorView,
};

verus! {

/// The steps of a round.
#[derive(Debug, Clone, Copy, PartialEq, Eq, Structural)]
pub enum RoundStep {
    NewHeight,
    NewRound,
    Propose,
    Prevote,
    Precommit,
    Commit,
}

/// Engine parameters. Durations are in milliseconds. A set of votes is a
/// quorum when its power exceeds `quorum_numerator / quorum_denominator`
/// of the total; the same threshold decides vote tallies and commit
/// verification.
#[derive(Debug, Clone, Copy)]
pub struct ConsensusConfig {
    pub max_evidence_age: i64,
    pub min_evidence_count: u32,
    pub max_block_size: usize,
    pub max_transactions_per_block: usize,
    pub quorum_numerator: u64,
    pub quorum_denominator: u64,
}

impl ConsensusConfig {
    /// The defaults (see `default_config`).
    pub open spec fn spec_default() -> ConsensusConfig {
        ConsensusConfig {
            max_evidence_age: 86_400_000,
            min_evidence_count: 2,
            max_block_size: 1_000_000,
            max_transactions_per_block: 1000,
            quorum_numerator: 2,
            quorum_denominator: 3,
        }
    }

    /// 24 h evidence age, batches of 2 pieces of evidence, 1 MB blocks of
    /// at most 1000 transactions, and a two-thirds quorum.
    pub fn default_config() -> (r: ConsensusConfig)
        ensures
            r.max_evidence_age == 86_400_000,
            r.min_evidence_count == 2,
            r.max_block_size == 1_000_000,
            r.max_transactions_per_block == 1000,
            r.quorum_numerator == 2,
            r.quorum_denominator == 3,
            r == ConsensusConfig::spec_default(),
    {
        ConsensusConfig {
            max_evidence_age: 86_400_000,
            min_evidence_count: 2,
            max_block_size: 1_000_000,
            max_transactions_per_block: 1000,
            quorum_numerator: 2,
            quorum_denominator: 3,
        }
    }
}

/// The persistent consensus state.
#[derive(Debug)]
pub struct ConsensusState {
    pub height: u64,
    pub round: u32,
    pub step: RoundStep,
    pub last_committed_height: u64,
    pub last_committed_round: u32,
    pub last_committed_hash: Vec<u8>,
    pub state_tree: MerkleTree,
}

/// The state of the current round: its proposer, the votes collected
/// (at most one per validator), the proposal and the last commit.
/// Times are milliseconds since the Unix epoch.
#[derive(Debug)]
pub struct RoundState {
    pub height: u64,
    pub round: u32,
    pub step: RoundStep,
    pub start_time: i64,
    pub commit_time: i64,
    pub proposer: Option<Vec<u8>>,
    pub votes: Vec<Vote>,
    pub proposal: Option<Proposal>,
    pub last_commit: Option<Commit>,
    pub timeout_propose: i64,
    pub timeout_prevote: i64,
    pub timeout_precommit: i64,
    pub timeout_commit: i64,
}

impl RoundState {
    /// Height and round 0, no votes, no proposal; timeouts of 3 s for
    /// propose and 1 s for the other steps.
    pub fn new(now: i64) -> (r: RoundState)
        ensures
            r.height == 0,
            r.round == 0,
            r.step == RoundStep::NewHeight,
            r.votes@.len() == 0,
            r.proposal is None,
            r.last_commit is None,
            r.proposer is None,
            r.timeout_propose == 3000,
            r.timeout_prevote == 1000,
            r.timeout_precommit == 1000,
            r.timeout_commit == 1000,
    {
        RoundState {
            height: 0,
            round: 0,
            step: RoundStep::NewHeight,
            start_time: now,
            commit_time: now,
            proposer: None,
            votes: Vec::new(),
            proposal: None,
            last_commit: None,
            timeout_propose: 3000,
            timeout_prevote: 1000,
            timeout_precommit: 1000,
            timeout_commit: 1000,
        }
    }
}

/// The voting power of the validator with the key; 0 for an unknown key.
pub open spec fn power_in(vals: Seq<ValidatorView>, pub_key: Seq<u8>) -> nat {
    if has_validator(vals, pub_key) {
        vals[validator_index(vals, pub_key)].voting_power as nat
    } else {
        0
    }
}

/// Whether an earlier vote came from the same validator.
pub open spec fn seen_before(votes: Seq<VoteView>, i: int) -> bool {
    exists|j: int| 0 <= j < i && (#[trigger] votes[j]).validator == votes[i].validator
}

/// Whether a vote counts towards a tally for `hash` (`None`: every vote).
pub open spec fn counts_for(v: VoteView, hash: Option<Seq<u8>>) -> bool {
    match hash {
        None => true,
        Some(h) => v.block_hash == h,
    }
}

/// The voting power behind `votes`: each validator counted once, at its
/// first vote, and only votes that count for `hash`.
pub open spec fn tally(vals: Seq<ValidatorView>, votes: Seq<VoteView>, hash: Option<Seq<u8>>) -> nat
    decreases votes.len(),
{
    if votes.len() == 0 {
        0
    } else {
        let i = votes.len() - 1;
        tally(vals, votes.drop_last(), hash) + if counts_for(votes[i], hash) && !seen_before(votes, i) {
            power_in(vals, votes[i].validator)
        } else {
            0
        }
    }
}

/// Whether `power` exceeds `numerator / denominator` of `total`.
pub open spec fn is_quorum(power: nat, total: nat, numerator: u64, denominator: u64) -> bool {
    power * denominator > total * numerator
}

/// No two votes from one validator.
pub open spec fn voters_unique(votes: Seq<VoteView>) -> bool {
    forall|i: int, j: int|
        0 <= i < votes.len() && 0 <= j < votes.len() && i != j ==> (#[trigger] votes[i]).validator
            != (#[trigger] votes[j]).validator
}

/// The signature check of a vote: its signature by the voter over
/// `"{height}:{round}:{hex(block_hash)}"` (see `signature_check`).
pub open spec fn vote_signature_ok(v: VoteView) -> Option<bool> {
    signature_check(v.validator, vote_message(v.height, v.round, v.block_hash), v.signature)
}

/// The tally of `votes` (see `tally`), computed without overflow.
pub fn tally_votes(validator_set: &ValidatorSet, votes: &Vec<Vote>, hash: Option<&Vec<u8>>) -> (r: u128)
    requires
        validator_set.wf(),
    ensures
        r == tally(
            validator_set.vals(),
            vote_views(votes@),
            match hash {
                None => None,
                Some(h) => Some(h@),
            },
        ),
        r <= u64::MAX as u128 * 0x1_0000_0000_0000_0000,
{
    let ghost h = match hash {
        None => None,
        Some(h) => Some(h@),
    };
    let ghost vs = vote_views(votes@);
    let mut acc: u128 = 0;
    let mut i: usize = 0;
    while i < votes.len()
        invariant
            vs == vote_views(votes@),
            h == (match hash {
                None => None,
                Some(h) => Some(h@),
            }),
            0 <= i <= vs.len(),
            acc == tally(validator_set.vals(), vs.subrange(0, i as int), h),
            acc <= i * 0x1_0000_0000_0000_0000,
            validator_set.wf(),
        decreases vs.len() - i,
    {
        let v = &votes[i];
        let counts = match hash {
            None => true,
            Some(hh) => bytes_eq(&v.block_hash, hh),
        };
        let mut earlier = false;
        let mut j: usize = 0;
        while j < i
            invariant
                0 <= j <= i < vs.len(),
                vs == vote_views(votes@),
                !earlier ==> forall|k: int| 0 <= k < j ==> (#[trigger] vs[k]).validator != vs[i as int].validator,
                earlier ==> exists|k: int| 0 <= k < i && (#[trigger] vs[k]).validator == vs[i as int].validator,
            decreases i - j,
        {
            if !earlier && bytes_eq(&votes[j].validator, &votes[i].validator) {
                earlier = true;
                assert(vs[j as int].validator == vs[i as int].validator);
            }
            j = j + 1;
        }
        let ghost pre = vs.subrange(0, i + 1);
        assert(pre.drop_last() =~= vs.subrange(0, i as int));
        assert(pre[i as int] == vs[i as int]);
        assert(seen_before(pre, i as int) == earlier) by {
            if earlier {
                let k = choose|k: int| 0 <= k < i && (#[trigger] vs[k]).validator == vs[i as int].validator;
                assert(pre[k] == vs[k]);
            } else {
                assert forall|k: int| 0 <= k < i implies (#[trigger] pre[k]).validator != pre[i as int].validator by {
                    assert(pre[k] == vs[k]);
                }
            }
        }
        if counts && !earlier {
            let p = validator_set.power_of(&v.validator);
            acc = acc + p as u128;
        }
        assert(acc <= (i + 1) * 0x1_0000_0000_0000_0000) by (nonlinear_arith)
            requires
                acc <= i * 0x1_0000_0000_0000_0000 + 0xffff_ffff_ffff_ffff,
        ;
        i = i + 1;
    }
    assert(vs.subrange(0, i as int) =~= vs);
    assert(acc <= u64::MAX as u128 * 0x1_0000_0000_0000_0000) by (nonlinear_arith)
        requires
            acc <= i * 0x1_0000_0000_0000_0000,
            i <= usize::MAX,
            usize::MAX <= u64::MAX,
    ;
    acc
}

/// Whether `power` is a quorum of `total` under the configured fraction.
pub fn check_quorum(power: u128, total: u64, numerator: u64, denominator: u64) -> (r: bool)
    requires
        power <= u64::MAX as u128 * 0x1_0000_0000_0000_0000,
    ensures
        r == is_quorum(power as nat, total as nat, numerator, denominator),
{
    // compare power * denominator with total * numerator, both as 192-bit
    // quantities split at 2^64
    let p_hi = power >> 64;
    let p_lo = power & 0xffff_ffff_ffff_ffff;
    proof {
        assert(power == p_hi * 0x1_0000_0000_0000_0000 + p_lo) by (bit_vector)
            requires
                p_hi == power >> 64,
                p_lo == power & 0xffff_ffff_ffff_ffff,
        ;
        assert(p_hi <= 0xffff_ffff_ffff_ffff) by (bit_vector)
            requires
                p_hi == power >> 64,
        ;
        assert(p_lo <= 0xffff_ffff_ffff_ffff) by (bit_vector)
            requires
                p_lo == power & 0xffff_ffff_ffff_ffff,
        ;
        assert(p_hi * denominator <= 0xffff_ffff_ffff_ffff * 0xffff_ffff_ffff_ffff) by (nonlinear_arith)
            requires
                p_hi <= 0xffff_ffff_ffff_ffff,
                denominator <= 0xffff_ffff_ffff_ffff,
        ;
        assert(p_lo * denominator <= 0xffff_ffff_ffff_ffff * 0xffff_ffff_ffff_ffff) by (nonlinear_arith)
            requires
                p_lo <= 0xffff_ffff_ffff_ffff,
                denominator <= 0xffff_ffff_ffff_ffff,
        ;
        assert(total * numerator <= 0xffff_ffff_ffff_ffff * 0xffff_ffff_ffff_ffff) by (nonlinear_arith)
            requires
                total <= 0xffff_ffff_ffff_ffff,
                numerator <= 0xffff_ffff_ffff_ffff,
        ;
    }
    let lhs_hi = p_hi * denominator as u128;
    let lhs_lo = p_lo * denominator as u128;
    let rhs = total as u128 * numerator as u128;
    proof {
        assert(power * denominator == lhs_hi * 0x1_0000_0000_0000_0000 + lhs_lo) by (nonlinear_arith)
            requires
                power == p_hi * 0x1_0000_0000_0000_0000 + p_lo,
                lhs_hi == p_hi * denominator,
                lhs_lo == p_lo * denominator,
        ;
    }
    if lhs_hi > 0 {
        let rhs_hi = rhs >> 64;
        let rhs_lo = rhs & 0xffff_ffff_ffff_ffff;
        proof {
            assert(rhs == rhs_hi * 0x1_0000_0000_0000_0000 + rhs_lo) by (bit_vector)
                requires
                    rhs_hi == rhs >> 64,
                    rhs_lo == rhs & 0xffff_ffff_ffff_ffff,
            ;
            assert(rhs_lo <= 0xffff_ffff_ffff_ffff) by (bit_vector)
                requires
                    rhs_lo == rhs & 0xffff_ffff_ffff_ffff,
            ;
        }
        let lo_carry = lhs_lo >> 64;
        let lo_rest = lhs_lo & 0xffff_ffff_ffff_ffff;
        proof {
            assert(lhs_lo == lo_carry * 0x1_0000_0000_0000_0000 + lo_rest) by (bit_vector)
                requires
                    lo_carry == lhs_lo >> 64,
                    lo_rest == lhs_lo & 0xffff_ffff_ffff_ffff,
            ;
            assert(lo_rest <= 0xffff_ffff_ffff_ffff) by (bit_vector)
                requires
                    lo_rest == lhs_lo & 0xffff_ffff_ffff_ffff,
            ;
            assert(lo_carry <= 0xffff_ffff_ffff_ffff) by (bit_vector)
                requires
                    lo_carry == lhs_lo >> 64,
            ;
        }
        let hi = lhs_hi + lo_carry;
        proof {
            assert(power * denominator == hi * 0x1_0000_0000_0000_0000 + lo_rest) by (nonlinear_arith)
                requires
                    power * denominator == lhs_hi * 0x1_0000_0000_0000_0000 + lhs_lo,
                    lhs_lo == lo_carry * 0x1_0000_0000_0000_0000 + lo_rest,
                    hi == lhs_hi + lo_carry,
            ;
            assert((power * denominator > total * numerator) == (hi > rhs_hi || (hi == rhs_hi && lo_rest > rhs_lo)))
                by (nonlinear_arith)
                requires
                    power * denominator == hi * 0x1_0000_0000_0000_0000 + lo_rest,
                    rhs == total * numerator,
                    rhs == rhs_hi * 0x1_0000_0000_0000_0000 + rhs_lo,
                    0 <= lo_rest <= 0xffff_ffff_ffff_ffff,
                    0 <= rhs_lo <= 0xffff_ffff_ffff_ffff,
                    hi >= 0,
                    rhs_hi >= 0,
            ;
        }
        hi > rhs_hi || (hi == rhs_hi && lo_rest > rhs_lo)
    } else {
        proof {
            assert(power * denominator == lhs_lo) by (nonlinear_arith)
                requires
                    power * denominator == lhs_hi * 0x1_0000_0000_0000_0000 + lhs_lo,
                    lhs_hi == 0,
            ;
        }
        lhs_lo > rhs
    }
}

/// A finalized block: its height, hash and when it was committed.
#[derive(Debug)]
pub struct CommittedState {
    pub height: u64,
    pub block_hash: Vec<u8>,
    pub timestamp: i64,
}

/// The consensus engine of one node. `validator_key` is its public key and
/// `signing_key` the 32-byte Ed25519 secret it signs with.
#[derive(Debug)]
pub struct ConsensusEngine {
    pub state: ConsensusState,
    pub validator_set: ValidatorSet,
    pub evidence_pool: EvidencePool,
    pub round_state: RoundState,
    pub slashing_conditions: Vec<SlashingCondition>,
    pub mempool: Mempool,
    pub outbox: Vec<ConsensusMessage>,
    pub committed: Vec<CommittedState>,
    pub validator_key: Vec<u8>,
    pub signing_key: Vec<u8>,
    pub config: ConsensusConfig,
}

/// What a finalized block is remembered by.
pub type CommitRecord = (u64, Seq<u8>);

/// Heights strictly increase and all lie below `height`.
pub open spec fn commits_ordered(records: Seq<CommitRecord>, height: u64) -> bool {
    &&& forall|i: int, j: int| 0 <= i < j < records.len() ==> (#[trigger] records[i]).0 < (#[trigger] records[j]).0
    &&& forall|i: int| 0 <= i < records.len() ==> (#[trigger] records[i]).0 < height
}

impl ConsensusEngine {
    /// The finalized blocks, oldest first.
    pub open spec fn records(&self) -> Seq<CommitRecord> {
        Seq::new(self.committed@.len(), |i: int| (self.committed@[i].height, self.committed@[i].block_hash@))
    }

    pub open spec fn votes(&self) -> Seq<VoteView> {
        vote_views(self.round_state.votes@)
    }

    /// The engine's invariant.
    pub open spec fn wf(&self) -> bool {
        &&& self.validator_set.wf()
        &&& self.evidence_pool.wf()
        &&& self.state.state_tree.wf()
        &&& self.mempool.wf()
        &&& self.signing_key@.len() == 32
        &&& voters_unique(self.votes())
        &&& commits_ordered(self.records(), self.state.height)
        &&& self.evidence_pool.max_evidence_age == self.config.max_evidence_age
        &&& self.records().len() > 0 ==> self.state.last_committed_height == self.records().last().0
            && self.state.last_committed_hash@ == self.records().last().1
        &&& self.records().len() == 0 ==> self.state.last_committed_height == 0
    }

    /// The round's proposer is the validator `select_proposer` picks: none
    /// ranks above it by `(proposer_priority, voting_power)`, and the last
    /// among equals.
    pub open spec fn has_selected_proposer(&self) -> bool {
        match self.round_state.proposer {
            Some(p) => exists|i: int|
                is_proposer_index(self.validator_set.vals(), i) && #[trigger] self.validator_set.vals()[i].pub_key
                    == p@,
            None => self.validator_set.vals().len() == 0,
        }
    }

    /// What every handler keeps: the invariant, and the finalized blocks,
    /// which are only ever added to.
    pub open spec fn keeps(&self, before: &ConsensusEngine) -> bool {
        &&& self.wf()
        &&& before.records().len() <= self.records().len()
        &&& self.records().subrange(0, before.records().len() as int) =~= before.records()
        &&& self.validator_key == before.validator_key
        &&& self.signing_key == before.signing_key
        &&& self.config == before.config
        &&& self.slashing_conditions == before.slashing_conditions
        &&& self.mempool.capacity() == before.mempool.capacity()
        &&& self.commit_advance(before)
        &&& self.outbox_extends(before)
    }

    /// The last committed block is unchanged, or it is the block just
    /// finalized at the old height.
    pub open spec fn commit_advance(&self, before: &ConsensusEngine) -> bool {
        ||| (self.state.last_committed_height == before.state.last_committed_height
            && self.state.last_committed_hash@ == before.state.last_committed_hash@ && self.records()
            == before.records())
        ||| (self.records() == before.records().push((before.state.height, self.state.last_committed_hash@))
            && self.state.last_committed_height == before.state.height && before.state.last_committed_height
            < before.state.height)
    }

    /// The outbox only grows at its end.
    pub open spec fn outbox_extends(&self, before: &ConsensusEngine) -> bool {
        &&& before.outbox@.len() <= self.outbox@.len()
        &&& forall|i: int| 0 <= i < before.outbox@.len() ==> #[trigger] self.outbox@[i] == before.outbox@[i]
    }

    /// An engine at height 0 with an empty state tree, evidence pool and
    /// mempool (of 10 000 transactions), the default slashing conditions and
    /// the given (or default) configuration.
    pub fn new(
        validator_key: Vec<u8>,
        signing_key: Vec<u8>,
        validator_set: ValidatorSet,
        config: Option<ConsensusConfig>,
        now: i64,
    ) -> (r: ConsensusEngine)
        requires
            validator_set.wf(),
            signing_key@.len() == 32,
        ensures
            r.wf(),
            r.state.height == 0,
            r.records().len() == 0,
            r.validator_set == validator_set,
            r.validator_set.vals() == validator_set.vals(),
            r.validator_key == validator_key,
            r.signing_key == signing_key,
            config is Some ==> r.config == config->Some_0,
            config is None ==> r.config == ConsensusConfig::spec_default(),
            r.slashing_conditions@ == crate::evidence::default_conditions(),
            r.evidence_pool.accepted().len() == 0,
            r.evidence_pool.pending().len() == 0,
            r.evidence_pool.max_evidence_age == r.config.max_evidence_age,
            r.mempool.entries().len() == 0,
            r.mempool.capacity() == 10000,
            r.state.last_committed_height == 0,
            r.state.last_committed_hash@ == Seq::new(32, |i: int| 0u8),
            r.state.state_tree.entries().len() == 0,
            r.round_state.height == 0 && r.round_state.round == 0 && r.round_state.proposal is None,
            r.votes().len() == 0,
            r.outbox@.len() == 0,
    {
        let tree = MerkleTree::new();
        let state = ConsensusState {
            height: 0,
            round: 0,
            step: RoundStep::NewHeight,
            last_committed_height: 0,
            last_committed_round: 0,
            last_committed_hash: vec![0u8; 32],
            state_tree: tree,
        };
        let config = match config {
            Some(c) => c,
            None => ConsensusConfig::default_config(),
        };
        let mut evidence_pool = EvidencePool::new();
        evidence_pool.max_evidence_age = config.max_evidence_age;
        let r = ConsensusEngine {
            state,
            validator_set,
            evidence_pool,
            round_state: RoundState::new(now),
            slashing_conditions: default_slashing_conditions(),
            mempool: Mempool::new(10000),
            outbox: Vec::new(),
            committed: Vec::new(),
            validator_key,
            signing_key,
            config,
        };
        assert(r.votes() =~= Seq::<VoteView>::empty());
        assert(r.records() =~= Seq::<CommitRecord>::empty());
        assert(r.state.last_committed_hash@ =~= Seq::new(32, |i: int| 0u8));
        r
    }

    /// Moves to the next height at round 0: the round state is reset (its
    /// last commit kept). Fails with `InvalidState` at the last height.
    fn enter_new_height(&mut self, now: i64) -> (r: Result<(), ConsensusError>)
        requires
            old(self).wf(),
        ensures
            final(self).keeps(old(self)),
            final(self).records() == old(self).records(),
            old(self).state.height == u64::MAX ==> r is Err && r->Err_0 is InvalidState,
            old(self).state.height < u64::MAX ==> r is Ok && final(self).state.height == old(self).state.height + 1
                && final(self).state.round == 0 && final(self).round_state.height == final(self).state.height
                && final(self).round_state.round == 0 && final(self).round_state.proposal is None
                && final(self).votes().len() == 0,
            old(self).state.height == u64::MAX ==> *final(self) == *old(self),
            final(self).validator_set == old(self).validator_set,
            final(self).state.last_committed_height == old(self).state.last_committed_height,
            final(self).state.last_committed_hash == old(self).state.last_committed_hash,
            final(self).outbox == old(self).outbox,
            final(self).evidence_pool == old(self).evidence_pool,
    {
        if self.state.height == u64::MAX {
            return Err(ConsensusError::InvalidState("height overflow".to_owned()));
        }
        self.state.height = self.state.height + 1;
        self.state.round = 0;
        self.state.step = RoundStep::NewHeight;
        self.round_state.height = self.state.height;
        self.round_state.round = 0;
        self.round_state.step = RoundStep::NewHeight;
        self.round_state.start_time = now;
        self.round_state.proposal = None;
        self.round_state.votes = Vec::new();
        assert(self.votes() =~= Seq::<VoteView>::empty());
        Ok(())
    }

    /// Starts the current round: recomputes proposer priorities, records
    /// the proposer and broadcasts `NewRound`. Fails with `InvalidState`
    /// when the total voting power is zero.
    fn start_round(&mut self, now: i64) -> (r: Result<(), ConsensusError>)
        requires
            old(self).wf(),
        ensures
            final(self).keeps(old(self)),
            final(self).records() == old(self).records(),
            final(self).state.height == old(self).state.height,
            final(self).state.last_committed_height == old(self).state.last_committed_height,
            final(self).round_state.height == old(self).round_state.height,
            final(self).round_state.round == old(self).round_state.round,
            old(self).validator_set.total_voting_power == 0 <==> r is Err,
            r is Err ==> r->Err_0 is InvalidState,
            r is Ok ==> final(self).round_state.step == RoundStep::NewRound && final(self).has_selected_proposer(),
            r is Err ==> *final(self) == *old(self),
            r is Ok ==> final(self).validator_set.vals() == with_priorities(
                old(self).validator_set.vals(),
                old(self).validator_set.total_voting_power as nat,
                now,
            ),
            r is Ok ==> final(self).outbox@.len() == old(self).outbox@.len() + 1 && is_new_round_message(
                final(self).outbox@.last(),
                old(self).validator_key@,
                old(self).round_state.height,
                old(self).round_state.round,
            ),
            final(self).state == old(self).state,
            final(self).evidence_pool == old(self).evidence_pool,
    {
        self.validator_set.update_proposer_priority(now)?;
        self.round_state.step = RoundStep::NewRound;
        self.round_state.start_time = now;
        match self.validator_set.select_proposer() {
            Some(i) => {
                self.round_state.proposer = Some(copy_bytes(&self.validator_set.validators[i].pub_key));
                assert(self.validator_set.vals()[i as int].pub_key == self.round_state.proposer->Some_0@);
                assert(self.has_selected_proposer());
            },
            None => {
                self.round_state.proposer = None;
            },
        }
        let metadata = MessageMetadata {
            height: self.round_state.height,
            round: self.round_state.round,
            sender: copy_bytes(&self.validator_key),
            signature: Vec::new(),
            block_hash: None,
        };
        let ghost before = self.outbox@;
        self.outbox.push(ConsensusMessage::NewRound { metadata });
        assert(self.outbox@ == before.push(self.outbox@.last()));
        Ok(())
    }

    /// Starts consensus: height 1, round 0, the proposer selected and
    /// `NewRound` broadcast.
    pub fn start(&mut self, now: i64) -> (r: Result<(), ConsensusError>)
        requires
            old(self).wf(),
        ensures
            final(self).keeps(old(self)),
            old(self).state.height < u64::MAX && old(self).validator_set.total_voting_power > 0 ==> r is Ok
                && final(self).state.height == old(self).state.height + 1 && final(self).round_state.round == 0
                && final(self).round_state.height == final(self).state.height,
            r is Ok ==> final(self).has_selected_proposer(),
            r is Ok ==> final(self).validator_set.vals() == with_priorities(
                old(self).validator_set.vals(),
                old(self).validator_set.total_voting_power as nat,
                now,
            ),
            r is Ok ==> final(self).outbox@.len() == old(self).outbox@.len() + 1 && is_new_round_message(
                final(self).outbox@.last(),
                old(self).validator_key@,
                final(self).state.height,
                0,
            ),
    {
        self.enter_new_height(now)?;
        self.start_round(now)
    }

    /// A new round at the current height: the round number is taken, the
    /// proposal and votes are cleared. `InvalidState` for another height.
    pub fn handle_new_round(&mut self, height: u64, round: u32, now: i64) -> (r: Result<(), ConsensusError>)
        requires
            old(self).wf(),
        ensures
            final(self).keeps(old(self)),
            final(self).new_round_outcome(old(self), height, round, r),
    {
        if height != self.state.height {
            return Err(ConsensusError::InvalidState("Wrong height".to_owned()));
        }
        self.round_state.round = round;
        self.round_state.step = RoundStep::NewRound;
        self.round_state.start_time = now;
        self.round_state.proposal = None;
        self.round_state.votes = Vec::new();
        assert(self.votes() =~= Seq::<VoteView>::empty());
        Ok(())
    }

    /// Queues evidence; once `min_evidence_count` pieces wait, all of them
    /// are verified and applied (see `EvidencePool::process_evidence`).
    pub fn handle_evidence(&mut self, evidence: Evidence, now: i64) -> (r: Result<(), ConsensusError>)
        requires
            old(self).wf(),
        ensures
            final(self).keeps(old(self)),
            final(self).evidence_outcome(old(self), evidence@, now, r),
    {
        let ghost before = self.evidence_pool.pending();
        let ghost acc = self.evidence_pool.accepted();
        self.evidence_pool.pending_evidence.push(evidence);
        assert(self.evidence_pool.pending() =~= before.push(evidence@));
        assert(self.evidence_pool.accepted() =~= acc);
        if self.evidence_pool.pending_evidence.len() >= self.config.min_evidence_count as usize {
            self.evidence_pool.process_evidence(&mut self.validator_set, &self.slashing_conditions, now);
        }
        Ok(())
    }

    /// Records the finalized block `block_hash` at the current height and
    /// moves on to the next height and its first round. Fails with
    /// `InvalidState` at the last height and with `StateError`, recording
    /// nothing, when the proposed block's state root is not the state
    /// tree's root.
    fn finalize_block(&mut self, block_hash: Vec<u8>, now: i64) -> (r: Result<(), ConsensusError>)
        requires
            old(self).wf(),
            old(self).round_state.proposal is Some,
        ensures
            final(self).keeps(old(self)),
            r is Err ==> final(self).records() == old(self).records() || final(self).records() == old(
                self,
            ).records().push((old(self).state.height, block_hash@)),
            r is Ok ==> final(self).records() == old(self).records().push((old(self).state.height, block_hash@))
                && final(self).state.height == old(self).state.height + 1
                && final(self).state.last_committed_height == old(self).state.height
                && final(self).state.last_committed_hash@ == block_hash@,
            0 < old(self).state.height < u64::MAX && old(self).validator_set.total_voting_power > 0
                && old(self).round_state.proposal->Some_0.block.header.state_root@
                == old(self).state.state_tree.spec_root() ==> r is Ok,
    {
        if self.state.height == u64::MAX {
            return Err(ConsensusError::InvalidState("height overflow".to_owned()));
        }
        if self.state.height == 0 {
            return Err(ConsensusError::InvalidState("consensus not started".to_owned()));
        }
        let root = self.state.state_tree.get_root();
        let root_ok = match &self.round_state.proposal {
            Some(p) => bytes_eq(&p.block.header.state_root, &root),
            None => false,
        };
        if !root_ok {
            return Err(ConsensusError::StateError("state root mismatch".to_owned()));
        }
        let ghost before = self.records();
        let height = self.state.height;
        let round = self.round_state.round;
        proof {
            if before.len() > 0 {
                assert(before.last() == before[before.len() - 1]);
            }
        }
        self.enter_new_height(now)?;
        self.committed.push(CommittedState { height, block_hash: copy_bytes(&block_hash), timestamp: now });
        assert(self.records() =~= before.push((height, block_hash@)));
        self.state.last_committed_height = height;
        self.state.last_committed_round = round;
        self.state.last_committed_hash = block_hash;
        self.round_state.commit_time = now;
        self.start_round(now)
    }

    /// When the votes for the proposed block carry a quorum, broadcasts a
    /// commit holding those votes and finalizes the block.
    fn try_commit(&mut self, now: i64) -> (r: Result<(), ConsensusError>)
        requires
            old(self).wf(),
        ensures
            final(self).keeps(old(self)),
            !old(self).quorum_for_proposal(old(self).votes()) ==> r is Ok && *final(self) == *old(self),
            old(self).quorum_for_proposal(old(self).votes()) ==> final(self).commits_from(old(self), old(self).votes(), r),
    {
        let hash = match &self.round_state.proposal {
            Some(p) => p.block.hash(),
            None => {
                return Ok(());
            },
        };
        let power = tally_votes(&self.validator_set, &self.round_state.votes, Some(&hash));
        if !check_quorum(
            power,
            self.validator_set.total_voting_power,
            self.config.quorum_numerator,
            self.config.quorum_denominator,
        ) {
            return Ok(());
        }
        let ghost vs = self.votes();
        let mut votes: Vec<Vote> = Vec::new();
        let mut i: usize = 0;
        assert(vs.subrange(0, 0) =~= Seq::<VoteView>::empty());
        while i < self.round_state.votes.len()
            invariant
                vs == self.votes(),
                0 <= i <= vs.len(),
                vote_views(votes@) == votes_for(vs.subrange(0, i as int), hash@),
            decreases vs.len() - i,
        {
            let ghost before = vote_views(votes@);
            assert(vs.subrange(0, i + 1).drop_last() =~= vs.subrange(0, i as int));
            assert(vs.subrange(0, i + 1).last() == vs[i as int]);
            if bytes_eq(&self.round_state.votes[i].block_hash, &hash) {
                votes.push(self.round_state.votes[i].duplicate());
                assert(vote_views(votes@) =~= before.push(vs[i as int]));
            }
            i = i + 1;
        }
        assert(vs.subrange(0, i as int) =~= vs);
        let message = build_vote_message(self.round_state.height, self.round_state.round, &hash);
        let signature = ed25519_sign(&self.signing_key, &message);
        let metadata = MessageMetadata {
            height: self.round_state.height,
            round: self.round_state.round,
            sender: copy_bytes(&self.validator_key),
            signature: copy_bytes(&signature),
            block_hash: Some(copy_bytes(&hash)),
        };
        let commit = Commit {
            height: self.round_state.height,
            round: self.round_state.round,
            block_hash: copy_bytes(&hash),
            votes: duplicate_votes(&votes),
            timestamp: now,
            signature,
        };
        let ghost at = self.outbox@.len();
        self.outbox.push(ConsensusMessage::Commit { metadata, votes });
        assert(is_commit_message(self.outbox@[at as int], old(self).round_state.height, old(self).round_state.round, hash@, votes_for(vs, hash@)));
        self.round_state.last_commit = Some(commit);
        self.finalize_block(hash, now)
    }
}

/// Whether a validator already voted in `votes`.
pub open spec fn has_voted(votes: Seq<VoteView>, validator: Seq<u8>) -> bool {
    exists|i: int| 0 <= i < votes.len() && (#[trigger] votes[i]).validator == validator
}

/// The votes for `hash`, in arrival order.
pub open spec fn votes_for(votes: Seq<VoteView>, hash: Seq<u8>) -> Seq<VoteView>
    decreases votes.len(),
{
    if votes.len() == 0 {
        seq![]
    } else {
        let init = votes_for(votes.drop_last(), hash);
        if votes.last().block_hash == hash {
            init.push(votes.last())
        } else {
            init
        }
    }
}

/// `m` is a commit for `hash` at `height` and `round`, carrying `votes`.
pub open spec fn is_commit_message(m: ConsensusMessage, height: u64, round: u32, hash: Seq<u8>, votes: Seq<VoteView>) -> bool {
    match m {
        ConsensusMessage::Commit { metadata, votes: vs } => metadata.height == height && metadata.round == round
            && metadata.block_hash is Some && metadata.block_hash->Some_0@ == hash && vote_views(vs@) == votes,
        _ => false,
    }
}

/// `m` is this node's signed vote for `hash` at `height` and `round`.
pub open spec fn is_own_vote_message(
    m: ConsensusMessage,
    key: Seq<u8>,
    secret: Seq<u8>,
    height: u64,
    round: u32,
    hash: Seq<u8>,
) -> bool {
    match m {
        ConsensusMessage::Vote { metadata, block_hash, voter } => metadata.height == height && metadata.round == round
            && metadata.sender@ == key && voter@ == key && block_hash@ == hash && metadata.block_hash is Some
            && metadata.block_hash->Some_0@ == hash && metadata.signature@ == ed25519_signature_of(
            secret,
            vote_message(height, round, hash),
        ),
        _ => false,
    }
}

/// `m` announces round `round` of `height`, sent by `key`.
pub open spec fn is_new_round_message(m: ConsensusMessage, key: Seq<u8>, height: u64, round: u32) -> bool {
    match m {
        ConsensusMessage::NewRound { metadata } => metadata.height == height && metadata.round == round
            && metadata.sender@ == key,
        _ => false,
    }
}

/// The position of the vote of `validator`, when there is one.
pub open spec fn vote_index(votes: Seq<VoteView>, validator: Seq<u8>) -> int {
    choose|i: int| 0 <= i < votes.len() && (#[trigger] votes[i]).validator == validator
}

/// `DuplicateVote` evidence made from a conflicting vote at time `now`.
pub open spec fn duplicate_vote_evidence(v: VoteView, now: i64) -> crate::evidence::EvidenceView {
    crate::evidence::EvidenceView {
        evidence_type: EvidenceType::DuplicateVote,
        validator: v.validator,
        height: v.height,
        round: v.round,
        timestamp: now,
        signature: v.signature,
    }
}

impl ConsensusEngine {
    /// The quorum condition for the proposed block over `votes`.
    pub open spec fn quorum_for_proposal(&self, votes: Seq<VoteView>) -> bool {
        self.round_state.proposal is Some && is_quorum(
            tally(self.validator_set.vals(), votes, Some(header_hash(self.round_state.proposal->Some_0.block.header))),
            self.validator_set.total_voting_power as nat,
            self.config.quorum_numerator,
            self.config.quorum_denominator,
        )
    }

    /// Finalizing the proposed block can succeed: a next height exists,
    /// some voting power is left, and the block's state root is the tree's.
    pub open spec fn can_finalize(&self) -> bool {
        &&& self.round_state.proposal is Some
        &&& 0 < self.state.height < u64::MAX
        &&& self.validator_set.total_voting_power > 0
        &&& self.round_state.proposal->Some_0.block.header.state_root@ == self.state.state_tree.spec_root()
    }

    /// The hash of the proposed block.
    pub open spec fn proposal_hash(&self) -> Seq<u8> {
        header_hash(self.round_state.proposal->Some_0.block.header)
    }

    /// What a quorum for the proposed block leads to from `before`, whose
    /// votes are `votes`: a commit with the votes for the block is
    /// broadcast, and, when finalizing can succeed, the block is finalized
    /// at the old height and the height advances.
    pub open spec fn commits_from(&self, before: &ConsensusEngine, votes: Seq<VoteView>, r: Result<(), ConsensusError>) -> bool {
        &&& self.outbox@.len() > before.outbox@.len()
        &&& is_commit_message(
            self.outbox@[before.outbox@.len() as int],
            before.round_state.height,
            before.round_state.round,
            before.proposal_hash(),
            votes_for(votes, before.proposal_hash()),
        )
        &&& before.can_finalize() ==> r is Ok && self.records() == before.records().push(
            (before.state.height, before.proposal_hash()),
        ) && self.state.height == before.state.height + 1 && self.state.last_committed_height
            == before.state.height && self.state.last_committed_hash@ == before.proposal_hash()
    }

    /// The outcome of `handle_new_round(height, round)` from `before`.
    pub open spec fn new_round_outcome(&self, before: &ConsensusEngine, height: u64, round: u32, r: Result<(), ConsensusError>) -> bool {
        &&& height != before.state.height ==> r is Err && r->Err_0 is InvalidState && *self == *before
        &&& height == before.state.height ==> r is Ok && self.round_state.round == round && self.round_state.step
            == RoundStep::NewRound && self.round_state.proposal is None && self.votes().len() == 0
            && self.records() == before.records() && self.state == before.state && self.outbox == before.outbox
    }

    /// The outcome of `handle_evidence(e)` from `before`: `e` is queued, and
    /// once `min_evidence_count` pieces wait they are all processed (see
    /// `process_all`).
    pub open spec fn evidence_outcome(&self, before: &ConsensusEngine, e: EvidenceView, now: i64, r: Result<(), ConsensusError>) -> bool {
        let pending = before.evidence_pool.pending().push(e);
        &&& r is Ok
        &&& self.records() == before.records()
        &&& pending.len() < before.config.min_evidence_count ==> self.evidence_pool.pending() == pending
            && self.evidence_pool.accepted() == before.evidence_pool.accepted() && self.validator_set
            == before.validator_set
        &&& pending.len() >= before.config.min_evidence_count ==> self.evidence_pool.pending().len() == 0 && (
        self.evidence_pool.accepted(),
        self.validator_set.vals(),
        ) == process_all(
            before.evidence_pool.accepted(),
            before.config.max_evidence_age,
            before.validator_set.vals(),
            before.slashing_conditions@,
            pending,
            now,
        )
    }

    /// The outcome of `handle_vote(v)` from `before` (see `handle_vote`).
    pub open spec fn vote_outcome(&self, before: &ConsensusEngine, v: VoteView, now: i64, r: Result<(), ConsensusError>) -> bool {
        let sig = vote_signature_ok(v);
        let power = power_in(before.validator_set.vals(), v.validator);
        let here = v.height == before.round_state.height && v.round == before.round_state.round;
        let accepted = sig == Some(true) && power > 0 && here;
        let votes = before.votes().push(v);
        &&& sig is None ==> r is Err && r->Err_0 is InvalidSignature && *self == *before
        &&& sig == Some(false) ==> r is Err && r->Err_0 is InvalidVote && *self == *before
        &&& sig == Some(true) && power == 0 ==> r is Err && r->Err_0 is InvalidVote && *self == *before
        &&& sig == Some(true) && power > 0 && !here ==> r is Err && r->Err_0 is InvalidVote && *self == *before
        &&& accepted && has_voted(before.votes(), v.validator) && before.votes()[vote_index(
            before.votes(),
            v.validator,
        )].block_hash == v.block_hash ==> r is Ok && *self == *before
        &&& accepted && has_voted(before.votes(), v.validator) && before.votes()[vote_index(
            before.votes(),
            v.validator,
        )].block_hash != v.block_hash ==> r is Ok && self.evidence_pool.pending() == before.evidence_pool.pending().push(
            duplicate_vote_evidence(v, now),
        ) && self.evidence_pool.accepted() == before.evidence_pool.accepted() && self.votes() == before.votes()
            && self.records() == before.records() && self.outbox == before.outbox && self.state == before.state
            && self.validator_set == before.validator_set
        &&& accepted && !has_voted(before.votes(), v.validator) && !before.quorum_for_proposal(votes) ==> r is Ok
            && self.votes() == votes && self.records() == before.records() && self.outbox == before.outbox
            && self.state == before.state
        &&& accepted && !has_voted(before.votes(), v.validator) && before.quorum_for_proposal(votes)
            ==> self.commits_from(before, votes, r)
    }

    /// The outcome of `handle_commit` from `before`, for a commit at
    /// `height` for `hash` carrying `votes` (see `handle_commit`).
    pub open spec fn commit_outcome(
        &self,
        before: &ConsensusEngine,
        height: u64,
        hash: Seq<u8>,
        votes: Seq<VoteView>,
        r: Result<(), ConsensusError>,
    ) -> bool {
        let check = commit_votes_check(votes, height, hash);
        let quorum = is_quorum(
            tally(before.validator_set.vals(), votes, None),
            before.validator_set.total_voting_power as nat,
            before.config.quorum_numerator,
            before.config.quorum_denominator,
        );
        let accepted = check == Some(true) && quorum && height == before.state.height;
        let matches_proposal = before.round_state.proposal is Some && before.proposal_hash() == hash;
        &&& check is None ==> r is Err && r->Err_0 is InvalidSignature && *self == *before
        &&& check == Some(false) ==> r is Err && r->Err_0 is InvalidCommit && *self == *before
        &&& check == Some(true) && !quorum ==> r is Err && r->Err_0 is InvalidCommit && *self == *before
        &&& check == Some(true) && quorum && height != before.state.height ==> r is Err && r->Err_0 is InvalidCommit
            && *self == *before
        &&& accepted && !matches_proposal ==> r is Ok && self.records() == before.records() && self.state
            == before.state && self.round_state.last_commit is Some && self.outbox == before.outbox
        &&& accepted && matches_proposal && before.can_finalize() ==> r is Ok && self.records()
            == before.records().push((before.state.height, hash)) && self.state.height == before.state.height + 1
            && self.state.last_committed_height == before.state.height && self.state.last_committed_hash@ == hash
    }

    /// The outcome of `handle_proposal(p)` from `before` (see
    /// `handle_proposal`).
    pub open spec fn proposal_outcome(&self, before: &ConsensusEngine, p: Proposal, now: i64, r: Result<(), ConsensusError>) -> bool {
        let hash = header_hash(p.block.header);
        let sig = signature_check(p.proposer@, vote_message(p.height, p.round, hash), p.signature@);
        let txs = txs_check(tx_views(p.block.transactions@), now);
        let block_ok = p.block.header.height == before.state.height && txs == Some(true)
            && p.block.header.state_root@ == before.state.state_tree.spec_root() && 116 + proposal_payload(
            p.block.transactions@,
        ) <= before.config.max_block_size;
        let here = p.height == before.round_state.height && p.round == before.round_state.round;
        let from_proposer = before.round_state.proposer is Some && before.round_state.proposer->Some_0@
            == p.proposer@;
        &&& r is Err ==> *self == *before
        &&& sig is None ==> r is Err && r->Err_0 is InvalidSignature
        &&& sig == Some(false) ==> r is Err && r->Err_0 is InvalidProposal
        &&& sig == Some(true) && p.block.header.height == before.state.height && txs is None ==> r is Err
            && r->Err_0 is InvalidSignature
        &&& sig == Some(true) && !block_ok && !(p.block.header.height == before.state.height && txs is None)
            ==> r is Err && r->Err_0 is InvalidProposal
        &&& sig == Some(true) && block_ok && !here ==> r is Err && r->Err_0 is InvalidProposal
        &&& sig == Some(true) && block_ok && here && !from_proposer ==> r is Err && r->Err_0 is InvalidState
        &&& sig == Some(true) && block_ok && here && from_proposer ==> {
            &&& r is Ok
            &&& self.round_state.proposal == Some(p)
            &&& self.records() == before.records()
            &&& self.state == before.state
            &&& has_validator(before.validator_set.vals(), before.validator_key@) ==> self.outbox@.len()
                == before.outbox@.len() + 1 && is_own_vote_message(
                self.outbox@.last(),
                before.validator_key@,
                before.signing_key@,
                p.height,
                p.round,
                hash,
            )
            &&& !has_validator(before.validator_set.vals(), before.validator_key@) ==> self.outbox == before.outbox
        }
    }
}

impl ConsensusEngine {
    /// Handles a vote. Rejected: a malformed signature (`InvalidSignature`);
    /// a signature over `"{height}:{round}:{hex(block_hash)}"` that does
    /// not verify, a voter without voting power, or another height or round
    /// (`InvalidVote`). A second vote from the same validator for another
    /// block is queued as `DuplicateVote` evidence and the first vote kept;
    /// a repeat of the same vote changes nothing. Otherwise the vote is
    /// added, and when the votes for the proposed block carry a quorum, a
    /// commit with them is broadcast and the block finalized.
    pub fn handle_vote(&mut self, vote: Vote, now: i64) -> (r: Result<(), ConsensusError>)
        requires
            old(self).wf(),
        ensures
            final(self).keeps(old(self)),
            final(self).vote_outcome(old(self), vote@, now, r),
    {
        let message = build_vote_message(vote.height, vote.round, &vote.block_hash);
        match check_signature(&vote.validator, &message, &vote.signature) {
            None => {
                return Err(ConsensusError::InvalidSignature("Invalid signature length".to_owned()));
            },
            Some(false) => {
                return Err(ConsensusError::InvalidVote("Invalid vote".to_owned()));
            },
            Some(true) => {},
        }
        if self.validator_set.power_of(&vote.validator) == 0 {
            return Err(ConsensusError::InvalidVote("Validator not found or without power".to_owned()));
        }
        if vote.height != self.round_state.height || vote.round != self.round_state.round {
            return Err(ConsensusError::InvalidVote("Wrong height or round".to_owned()));
        }
        let ghost vs = self.votes();
        let mut i: usize = 0;
        while i < self.round_state.votes.len()
            invariant
                vs == self.votes(),
                *self == *old(self),
                self.wf(),
                vote_signature_ok(vote@) == Some(true),
                power_in(old(self).validator_set.vals(), vote.validator@) > 0,
                vote.height == old(self).round_state.height,
                vote.round == old(self).round_state.round,
                0 <= i <= vs.len(),
                forall|k: int| 0 <= k < i ==> (#[trigger] vs[k]).validator != vote.validator@,
            decreases vs.len() - i,
        {
            if bytes_eq(&self.round_state.votes[i].validator, &vote.validator) {
                assert(vs[i as int].validator == vote.validator@);
                proof {
                    assert(has_voted(vs, vote.validator@));
                    let k = vote_index(vs, vote.validator@);
                    assert(vs[k].validator == vote.validator@);
                    assert(k == i);
                }
                if !bytes_eq(&self.round_state.votes[i].block_hash, &vote.block_hash) {
                    let evidence = Evidence {
                        evidence_type: EvidenceType::DuplicateVote,
                        validator: copy_bytes(&vote.validator),
                        height: vote.height,
                        round: vote.round,
                        timestamp: now,
                        signature: copy_bytes(&vote.signature),
                    };
                    assert(evidence@ == duplicate_vote_evidence(vote@, now));
                    let ghost acc = self.evidence_pool.accepted();
                    let ghost pend = self.evidence_pool.pending();
                    let ghost ev = evidence@;
                    self.evidence_pool.pending_evidence.push(evidence);
                    assert(self.evidence_pool.accepted() =~= acc);
                    assert(self.evidence_pool.pending() =~= pend.push(ev));
                    assert(self.records() =~= old(self).records());
                    assert(self.votes() =~= old(self).votes());
                }
                return Ok(());
            }
            i = i + 1;
        }
        let ghost v = vote@;
        self.round_state.votes.push(vote);
        assert(self.votes() =~= vs.push(v));
        proof {
            assert forall|a: int, b: int|
                0 <= a < self.votes().len() && 0 <= b < self.votes().len() && a != b implies (#[trigger] self.votes()[a]).validator
                    != (#[trigger] self.votes()[b]).validator by {
                if a < vs.len() && b < vs.len() {
                    assert(vs[a].validator != vs[b].validator);
                }
            }
        }
        self.try_commit(now)
    }
}

/// Checks the votes of a commit in order against
/// `"{height}:{hex(block_hash)}"`: `None` at the first malformed signature,
/// `Some(false)` at the first that does not verify.
pub open spec fn commit_votes_check(votes: Seq<VoteView>, height: u64, hash: Seq<u8>) -> Option<bool>
    decreases votes.len(),
{
    if votes.len() == 0 {
        Some(true)
    } else {
        match signature_check(votes[0].validator, commit_vote_message(height, hash), votes[0].signature) {
            None => None,
            Some(false) => Some(false),
            Some(true) => commit_votes_check(votes.drop_first(), height, hash),
        }
    }
}

/// `"{hex(sender)}:{hex(receiver)}:{amount}:{fee}"`: what a transaction is
/// signed over.
pub open spec fn tx_message(t: TransactionView) -> Seq<u8> {
    hex_ascii(t.sender) + seq![58u8] + hex_ascii(t.receiver) + seq![58u8] + decimal(t.amount as nat) + seq![58u8]
        + decimal(t.fee as nat)
}

/// How old (milliseconds) a transaction may be to enter a block.
pub const MAX_TRANSACTION_AGE: i64 = 86_400_000;

/// Whether a transaction is older than `MAX_TRANSACTION_AGE` at `now`.
pub open spec fn tx_expired(t: TransactionView, now: i64) -> bool {
    now - t.timestamp > MAX_TRANSACTION_AGE
}

fn is_expired(t: &Transaction, now: i64) -> (r: bool)
    ensures
        r == tx_expired(t@, now),
{
    now as i128 - t.timestamp as i128 > MAX_TRANSACTION_AGE as i128
}

/// Checks the transactions in order: `Some(false)` at the first that has
/// expired at `now`; else `None` at the first malformed signature,
/// `Some(false)` at the first that does not verify.
pub open spec fn txs_check(txs: Seq<TransactionView>, now: i64) -> Option<bool>
    decreases txs.len(),
{
    if txs.len() == 0 {
        Some(true)
    } else if tx_expired(txs[0], now) {
        Some(false)
    } else {
        match signature_check(txs[0].sender, tx_message(txs[0]), txs[0].signature) {
            None => None,
            Some(false) => Some(false),
            Some(true) => txs_check(txs.drop_first(), now),
        }
    }
}

/// The bytes a transaction is signed over.
pub fn build_tx_message(t: &Transaction) -> (r: Vec<u8>)
    ensures
        r@ == tx_message(t@),
{
    let mut m = hex_encode(&t.sender);
    m.push(58u8);
    let h = hex_encode(&t.receiver);
    push_all(&mut m, &h);
    m.push(58u8);
    push_decimal(&mut m, t.amount);
    m.push(58u8);
    push_decimal(&mut m, t.fee);
    assert(m@ =~= tx_message(t@));
    m
}

/// The first `limit` transactions that have not expired at `now`, in order.
fn fresh_transactions(txs: Vec<Transaction>, now: i64, limit: usize) -> (r: Vec<Transaction>)
    ensures
        tx_views(r@) == take_fresh(tx_views(txs@), now, limit as nat),
        r@.len() <= limit,
        forall|k: int| 0 <= k < r@.len() ==> !tx_expired(#[trigger] r@[k]@, now),
        forall|k: int| 0 <= k < r@.len() ==> tx_views(txs@).contains(#[trigger] r@[k]@),
{
    let mut r: Vec<Transaction> = Vec::new();
    let mut i: usize = 0;
    let ghost ts = tx_views(txs@);
    assert(ts.skip(0) =~= ts);
    while i < txs.len() && r.len() < limit
        invariant
            0 <= i <= txs@.len(),
            ts == tx_views(txs@),
            r@.len() <= limit,
            tx_views(r@) + take_fresh(ts.skip(i as int), now, (limit - r@.len()) as nat) == take_fresh(ts, now, limit as nat),
            forall|k: int| 0 <= k < r@.len() ==> !tx_expired(#[trigger] r@[k]@, now),
            forall|k: int| 0 <= k < r@.len() ==> tx_views(txs@).contains(#[trigger] r@[k]@),
        decreases txs@.len() - i,
    {
        assert(ts.skip(i as int).drop_first() =~= ts.skip(i + 1));
        assert(ts.skip(i as int)[0] == ts[i as int]);
        let ghost rv = tx_views(r@);
        if !is_expired(&txs[i], now) {
            let t = txs[i].duplicate();
            assert(tx_views(txs@)[i as int] == t@);
            r.push(t);
            assert(tx_views(r@) =~= rv.push(t@));
            assert(rv.push(t@) + take_fresh(ts.skip(i + 1), now, (limit - r@.len()) as nat) =~= rv + (seq![t@]
                + take_fresh(ts.skip(i + 1), now, (limit - r@.len()) as nat)));
        }
        i = i + 1;
    }
    proof {
        if r@.len() == limit {
            assert(take_fresh(ts.skip(i as int), now, 0) == Seq::<TransactionView>::empty());
        } else {
            assert(ts.skip(i as int) =~= Seq::<TransactionView>::empty());
        }
        assert(tx_views(r@) + Seq::<TransactionView>::empty() =~= tx_views(r@));
    }
    r
}

/// The transactions of a pool in the order of `picks`.
pub open spec fn in_pick_order(entries: Seq<crate::mempool::PoolEntry>, picks: Seq<int>) -> Seq<TransactionView> {
    Seq::new(picks.len(), |k: int| entries[picks[k]].0)
}

/// The first `limit` transactions of `txs` that have not expired at `now`,
/// in order.
pub open spec fn take_fresh(txs: Seq<TransactionView>, now: i64, limit: nat) -> Seq<TransactionView>
    decreases txs.len(),
{
    if txs.len() == 0 || limit == 0 {
        seq![]
    } else if tx_expired(txs[0], now) {
        take_fresh(txs.drop_first(), now, limit)
    } else {
        seq![txs[0]] + take_fresh(txs.drop_first(), now, (limit - 1) as nat)
    }
}

/// Checks the votes of a commit (see `commit_votes_check`).
fn check_commit_votes(votes: &Vec<Vote>, height: u64, hash: &Vec<u8>) -> (r: Option<bool>)
    ensures
        r == commit_votes_check(vote_views(votes@), height, hash@),
{
    let message = build_commit_vote_message(height, hash);
    let ghost vs = vote_views(votes@);
    let mut i: usize = 0;
    assert(vs.skip(0) =~= vs);
    while i < votes.len()
        invariant
            vs == vote_views(votes@),
            message@ == commit_vote_message(height, hash@),
            0 <= i <= vs.len(),
            commit_votes_check(vs, height, hash@) == commit_votes_check(vs.skip(i as int), height, hash@),
        decreases vs.len() - i,
    {
        assert(vs.skip(i as int).drop_first() =~= vs.skip(i + 1));
        assert(vs.skip(i as int)[0] == vs[i as int]);
        match check_signature(&votes[i].validator, &message, &votes[i].signature) {
            None => {
                return None;
            },
            Some(false) => {
                return Some(false);
            },
            Some(true) => {},
        }
        i = i + 1;
    }
    Some(true)
}

/// Checks the transactions' ages and signatures (see `txs_check`).
pub fn check_transactions(txs: &Vec<Transaction>, now: i64) -> (r: Option<bool>)
    ensures
        r == txs_check(tx_views(txs@), now),
{
    let ghost ts = tx_views(txs@);
    let mut i: usize = 0;
    assert(ts.skip(0) =~= ts);
    while i < txs.len()
        invariant
            ts == tx_views(txs@),
            0 <= i <= ts.len(),
            txs_check(ts, now) == txs_check(ts.skip(i as int), now),
        decreases ts.len() - i,
    {
        assert(ts.skip(i as int).drop_first() =~= ts.skip(i + 1));
        assert(ts.skip(i as int)[0] == ts[i as int]);
        if is_expired(&txs[i], now) {
            return Some(false);
        }
        let m = build_tx_message(&txs[i]);
        match check_signature(&txs[i].sender, &m, &txs[i].signature) {
            None => {
                return None;
            },
            Some(false) => {
                return Some(false);
            },
            Some(true) => {},
        }
        i = i + 1;
    }
    Some(true)
}

impl ConsensusEngine {
    /// Handles a commit. Rejected: a malformed vote signature
    /// (`InvalidSignature`); a vote signature over
    /// `"{height}:{hex(block_hash)}"` that does not verify, votes without a
    /// quorum of the voting power (each validator counted once), or another
    /// height (`InvalidCommit`). Otherwise the commit is kept as the last
    /// one, and when it is for the proposed block, that block is finalized.
    pub fn handle_commit(&mut self, commit: Commit, now: i64) -> (r: Result<(), ConsensusError>)
        requires
            old(self).wf(),
        ensures
            final(self).keeps(old(self)),
            final(self).commit_outcome(old(self), commit.height, commit.block_hash@, vote_views(commit.votes@), r),
    {
        match check_commit_votes(&commit.votes, commit.height, &commit.block_hash) {
            None => {
                return Err(ConsensusError::InvalidSignature("Invalid signature length".to_owned()));
            },
            Some(false) => {
                return Err(ConsensusError::InvalidCommit("Invalid commit".to_owned()));
            },
            Some(true) => {},
        }
        let power = tally_votes(&self.validator_set, &commit.votes, None);
        if !check_quorum(
            power,
            self.validator_set.total_voting_power,
            self.config.quorum_numerator,
            self.config.quorum_denominator,
        ) {
            return Err(ConsensusError::InvalidCommit("Insufficient voting power".to_owned()));
        }
        if commit.height != self.state.height {
            return Err(ConsensusError::InvalidCommit("Wrong height".to_owned()));
        }
        let hash = copy_bytes(&commit.block_hash);
        let matches = match &self.round_state.proposal {
            Some(p) => {
                let h = p.block.hash();
                bytes_eq(&h, &hash)
            },
            None => false,
        };
        self.round_state.last_commit = Some(commit);
        if matches {
            self.finalize_block(hash, now)
        } else {
            Ok(())
        }
    }

    /// Handles a proposal. Rejected: a malformed signature, or a malformed
    /// transaction signature (`InvalidSignature`); a proposer signature over
    /// `"{height}:{round}:{hex(block_hash)}"` that does not verify, a block
    /// for another height, a transaction that has expired or whose signature
    /// does not verify, a
    /// state root other than the state tree's, a block whose estimated size
    /// (see `proposal_size`) exceeds `max_block_size`, or another height or round
    /// (`InvalidProposal`); a sender that is not the round's proposer
    /// (`InvalidState`). Otherwise the proposal is stored and, when this
    /// node is a validator, its signed vote for the block is broadcast.
    pub fn handle_proposal(&mut self, proposal: Proposal, now: i64) -> (r: Result<(), ConsensusError>)
        requires
            old(self).wf(),
        ensures
            final(self).keeps(old(self)),
            final(self).proposal_outcome(old(self), proposal, now, r),
    {
        let hash = proposal.block.hash();
        let message = build_vote_message(proposal.height, proposal.round, &hash);
        match check_signature(&proposal.proposer, &message, &proposal.signature) {
            None => {
                return Err(ConsensusError::InvalidSignature("Invalid signature length".to_owned()));
            },
            Some(false) => {
                return Err(ConsensusError::InvalidProposal("Invalid proposal".to_owned()));
            },
            Some(true) => {},
        }
        if proposal.block.header.height != self.state.height {
            return Err(ConsensusError::InvalidProposal("Invalid proposal".to_owned()));
        }
        match check_transactions(&proposal.block.transactions, now) {
            None => {
                return Err(ConsensusError::InvalidSignature("Invalid signature length".to_owned()));
            },
            Some(false) => {
                return Err(ConsensusError::InvalidProposal("Invalid proposal".to_owned()));
            },
            Some(true) => {},
        }
        let root = self.state.state_tree.get_root();
        if !bytes_eq(&proposal.block.header.state_root, &root) {
            return Err(ConsensusError::InvalidProposal("Invalid proposal".to_owned()));
        }
        let small_enough = match proposal_size(&proposal.block.transactions) {
            Some(n) => n <= self.config.max_block_size,
            None => false,
        };
        if !small_enough {
            return Err(ConsensusError::InvalidProposal("Block too large".to_owned()));
        }
        if proposal.height != self.round_state.height || proposal.round != self.round_state.round {
            return Err(ConsensusError::InvalidProposal("Wrong height or round".to_owned()));
        }
        let from_proposer = match &self.round_state.proposer {
            Some(p) => bytes_eq(p, &proposal.proposer),
            None => false,
        };
        if !from_proposer {
            return Err(ConsensusError::InvalidState("Not the proposer".to_owned()));
        }
        let height = proposal.height;
        let round = proposal.round;
        self.round_state.proposal = Some(proposal);
        if self.validator_set.contains(&self.validator_key) {
            let signature = ed25519_sign(&self.signing_key, &message);
            let metadata = MessageMetadata {
                height,
                round,
                sender: copy_bytes(&self.validator_key),
                signature,
                block_hash: Some(copy_bytes(&hash)),
            };
            let ghost before = self.outbox@;
            self.outbox.push(ConsensusMessage::Vote { metadata, block_hash: hash, voter: copy_bytes(&self.validator_key) });
            assert(self.outbox@ == before.push(self.outbox@.last()));
        }
        Ok(())
    }

    /// A block of `transactions` at the current height: previous hash the
    /// last committed hash, this node as proposer, the transaction root and
    /// the state root in the header, 32 zero bytes for the other roots.
    fn create_block(&self, transactions: Vec<Transaction>, now: i64) -> (r: Block)
        requires
            self.wf(),
        ensures
            r.header.height == self.state.height,
            r.header.proposer@ == self.validator_key@,
            r.header.state_root@ == self.state.state_tree.spec_root(),
            r.header.transaction_root@ == transaction_root(tx_views(transactions@)),
            r.header.previous_hash@ == self.state.last_committed_hash@,
            tx_views(r.transactions@) == tx_views(transactions@),
    {
        let transaction_root = calculate_transaction_root(&transactions);
        let state_root = self.state.state_tree.get_root();
        let header = BlockHeader {
            version: 1,
            previous_hash: copy_bytes(&self.state.last_committed_hash),
            timestamp: now,
            height: self.state.height,
            proposer: copy_bytes(&self.validator_key),
            transaction_root: copy_bytes(&transaction_root),
            state_root: copy_bytes(&state_root),
            evidence_root: vec![0u8; 32],
            validator_hash: vec![0u8; 32],
            consensus_hash: vec![0u8; 32],
            app_hash: vec![0u8; 32],
        };
        Block {
            header,
            transactions,
            merkle_root: hex_encode(&transaction_root),
            state_root: hex_encode(&state_root),
        }
    }

    /// This node's proposal for the current round: up to
    /// `max_transactions_per_block` transactions of the mempool, in a block
    /// signed over `"{height}:{round}:{hex(block_hash)}"`. Fails with
    /// `InvalidState` unless this node is the round's proposer.
    pub fn create_proposal(&self, now: i64) -> (r: Result<Proposal, ConsensusError>)
        requires
            self.wf(),
        ensures
            !(self.round_state.proposer is Some && self.round_state.proposer->Some_0@ == self.validator_key@)
                ==> r is Err && r->Err_0 is InvalidState,
            self.round_state.proposer is Some && self.round_state.proposer->Some_0@ == self.validator_key@ ==> {
                &&& r is Ok
                &&& r->Ok_0.proposer@ == self.validator_key@
                &&& r->Ok_0.height == self.round_state.height
                &&& r->Ok_0.round == self.round_state.round
                &&& r->Ok_0.block.header.height == self.state.height
                &&& r->Ok_0.block.header.state_root@ == self.state.state_tree.spec_root()
                &&& r->Ok_0.block.header.transaction_root@ == transaction_root(tx_views(r->Ok_0.block.transactions@))
                &&& r->Ok_0.block.transactions@.len() <= self.config.max_transactions_per_block
                &&& exists|picks: Seq<int>|
                    #![trigger top_picks(self.mempool.entries(), picks)]
                    top_picks(self.mempool.entries(), picks) && picks.len() == self.mempool.entries().len()
                        && tx_views(r->Ok_0.block.transactions@) == take_fresh(
                        in_pick_order(self.mempool.entries(), picks),
                        now,
                        self.config.max_transactions_per_block as nat,
                    )
                &&& forall|k: int|
                    0 <= k < r->Ok_0.block.transactions@.len() ==> !tx_expired(
                        #[trigger] r->Ok_0.block.transactions@[k]@,
                        now,
                    )
                &&& r->Ok_0.signature@ == ed25519_signature_of(
                    self.signing_key@,
                    vote_message(self.round_state.height, self.round_state.round, header_hash(r->Ok_0.block.header)),
                )
            },
    {
        let is_proposer = match &self.round_state.proposer {
            Some(p) => bytes_eq(p, &self.validator_key),
            None => false,
        };
        if !is_proposer {
            return Err(ConsensusError::InvalidState("Not the proposer".to_owned()));
        }
        let by_priority = self.mempool.top_by_priority(self.mempool.len());
        let ghost ordered = tx_views(by_priority@);
        proof {
            let picks = choose|picks: Seq<int>|
                #![trigger top_picks(self.mempool.entries(), picks)]
                top_picks(self.mempool.entries(), picks) && picks.len() == by_priority@.len() && forall|k: int|
                    0 <= k < picks.len() ==> (#[trigger] by_priority@[k])@ == self.mempool.entries()[picks[k]].0;
            assert(ordered =~= in_pick_order(self.mempool.entries(), picks));
        }
        let transactions = fresh_transactions(by_priority, now, self.config.max_transactions_per_block);
        let ghost fresh = transactions@;
        let block = self.create_block(transactions, now);
        proof {
            assert forall|k: int| 0 <= k < block.transactions@.len() implies !tx_expired(
                #[trigger] block.transactions@[k]@,
                now,
            ) by {
                assert(tx_views(block.transactions@)[k] == tx_views(fresh)[k]);
                assert(!tx_expired(fresh[k]@, now));
            }
        }
        let hash = block.hash();
        let message = build_vote_message(self.round_state.height, self.round_state.round, &hash);
        let signature = ed25519_sign(&self.signing_key, &message);
        Ok(
            Proposal {
                proposer: copy_bytes(&self.validator_key),
                height: self.round_state.height,
                round: self.round_state.round,
                block,
                timestamp: now,
                signature,
            },
        )
    }
}

impl ConsensusEngine {
    /// Dispatches a message to its handler: `NewRound` to
    /// `handle_new_round`, `Proposal`, `Vote` and `Commit` to their handlers
    /// (timestamped `now`, signed as the metadata says, a commit's block hash
    /// taken from the metadata or empty), and `Evidence` to
    /// `handle_evidence` as `InvalidVote` evidence against the voter.
    pub fn handle_message(&mut self, message: ConsensusMessage, now: i64) -> (r: Result<(), ConsensusError>)
        requires
            old(self).wf(),
        ensures
            final(self).keeps(old(self)),
            message matches ConsensusMessage::NewRound { metadata } ==> final(self).new_round_outcome(
                old(self),
                metadata.height,
                metadata.round,
                r,
            ),
            message matches ConsensusMessage::Vote { metadata, block_hash, voter } ==> final(self).vote_outcome(
                old(self),
                VoteView {
                    validator: voter@,
                    height: metadata.height,
                    round: metadata.round,
                    block_hash: block_hash@,
                    timestamp: now,
                    signature: metadata.signature@,
                },
                now,
                r,
            ),
            message matches ConsensusMessage::Proposal { metadata, block, proposer } ==> final(self).proposal_outcome(
                old(self),
                (Proposal {
                    proposer,
                    height: metadata.height,
                    round: metadata.round,
                    block,
                    timestamp: now,
                    signature: metadata.signature,
                }),
                now,
                r,
            ),
            message matches ConsensusMessage::Commit { metadata, votes } ==> final(self).commit_outcome(
                old(self),
                metadata.height,
                match metadata.block_hash {
                    Some(h) => h@,
                    None => Seq::<u8>::empty(),
                },
                vote_views(votes@),
                r,
            ),
            message matches ConsensusMessage::Evidence { metadata, block_hash, voter } ==> final(self).evidence_outcome(
                old(self),
                EvidenceView {
                    evidence_type: EvidenceType::InvalidVote,
                    validator: voter@,
                    height: metadata.height,
                    round: metadata.round,
                    timestamp: now,
                    signature: metadata.signature@,
                },
                now,
                r,
            ),
    {
        match message {
            ConsensusMessage::NewRound { metadata } => self.handle_new_round(metadata.height, metadata.round, now),
            ConsensusMessage::Proposal { metadata, block, proposer } => {
                let proposal = Proposal {
                    proposer,
                    height: metadata.height,
                    round: metadata.round,
                    block,
                    timestamp: now,
                    signature: metadata.signature,
                };
                self.handle_proposal(proposal, now)
            },
            ConsensusMessage::Vote { metadata, block_hash, voter } => {
                let vote = Vote {
                    validator: voter,
                    height: metadata.height,
                    round: metadata.round,
                    block_hash,
                    timestamp: now,
                    signature: metadata.signature,
                };
                self.handle_vote(vote, now)
            },
            ConsensusMessage::Commit { metadata, votes } => {
                let block_hash = match metadata.block_hash {
                    Some(h) => h,
                    None => Vec::new(),
                };
                let commit = Commit {
                    height: metadata.height,
                    round: metadata.round,
                    block_hash,
                    votes,
                    timestamp: now,
                    signature: metadata.signature,
                };
                self.handle_commit(commit, now)
            },
            ConsensusMessage::Evidence { metadata, block_hash: _, voter } => {
                let evidence = Evidence {
                    evidence_type: EvidenceType::InvalidVote,
                    validator: voter,
                    height: metadata.height,
                    round: metadata.round,
                    timestamp: now,
                    signature: metadata.signature,
                };
                self.handle_evidence(evidence, now)
            },
        }
    }

    /// Recomputes the validator set's total and priorities and processes
    /// any pending evidence. (No persistence is wired, so there is no
    /// stored state to load.)
    pub fn recover_state(&mut self, now: i64) -> (r: Result<(), ConsensusError>)
        requires
            old(self).wf(),
        ensures
            final(self).keeps(old(self)),
            final(self).records() == old(self).records(),
            old(self).validator_set.total_voting_power > 0 <==> r is Ok,
            r is Err ==> r->Err_0 is InvalidState && *final(self) == *old(self),
            r is Ok ==> final(self).evidence_pool.pending().len() == 0 && (
            final(self).evidence_pool.accepted(),
            final(self).validator_set.vals(),
            ) == process_all(
                old(self).evidence_pool.accepted(),
                old(self).evidence_pool.max_evidence_age,
                with_priorities(
                    old(self).validator_set.vals(),
                    old(self).validator_set.total_voting_power as nat,
                    now,
                ),
                old(self).slashing_conditions@,
                old(self).evidence_pool.pending(),
                now,
            ),
    {
        let none: Vec<crate::validator::ValidatorUpdate> = Vec::new();
        assert(none@ =~= Seq::<crate::validator::ValidatorUpdate>::empty());
        self.validator_set.update_proposer_priority(now)?;
        self.evidence_pool.process_evidence(&mut self.validator_set, &self.slashing_conditions, now);
        Ok(())
    }

    /// The validator set.
    pub fn get_validator_set(&self) -> (r: &ValidatorSet)
        ensures
            *r == self.validator_set,
    {
        &self.validator_set
    }

    /// The evidence pool.
    pub fn get_evidence_pool(&self) -> (r: &EvidencePool)
        ensures
            *r == self.evidence_pool,
    {
        &self.evidence_pool
    }

    /// The state of the current round.
    pub fn get_round_state(&self) -> (r: &RoundState)
        ensures
            *r == self.round_state,
    {
        &self.round_state
    }

    /// The persistent consensus state.
    pub fn get_current_state(&self) -> (r: &ConsensusState)
        ensures
            *r == self.state,
    {
        &self.state
    }

    /// Adds a transaction to the mempool under its fee.
    pub fn add_transaction(&mut self, transaction: Transaction) -> (r: Result<(), ConsensusError>)
        requires
            old(self).wf(),
        ensures
            final(self).keeps(old(self)),
            final(self).records() == old(self).records(),
            final(self).mempool.entries() == crate::mempool::add_entry(
                old(self).mempool.entries(),
                old(self).mempool.capacity(),
                (transaction@, transaction.fee),
            ),
            r is Ok,
    {
        let fee = transaction.fee;
        self.mempool.add_transaction(transaction, fee);
        Ok(())
    }

    /// Takes the queued outgoing messages, oldest first.
    pub fn take_outbox(&mut self) -> (r: Vec<ConsensusMessage>)
        requires
            old(self).wf(),
        ensures
            final(self).wf(),
            r@ == old(self).outbox@,
            final(self).outbox@.len() == 0,
            final(self).state == old(self).state,
            final(self).round_state == old(self).round_state,
            final(self).validator_set == old(self).validator_set,
            final(self).evidence_pool == old(self).evidence_pool,
            final(self).mempool == old(self).mempool,
            final(self).committed == old(self).committed,
    {
        let mut out: Vec<ConsensusMessage> = Vec::new();
        core::mem::swap(&mut out, &mut self.outbox);
        out
    }
}

/// No double finalization: the finalized blocks have pairwise distinct
/// heights, all below the current height, so no height is finalized twice;
/// and each handler only appends to them, so a finalized block hash never
/// changes (see `keeps`).
pub proof fn lemma_no_double_finalization(e: ConsensusEngine, i: int, j: int)
    requires
        e.wf(),
        0 <= i < e.records().len(),
        0 <= j < e.records().len(),
        i != j,
    ensures
        e.records()[i].0 != e.records()[j].0,
        e.records()[i].0 < e.state.height,
{
    if i < j {
        assert(e.records()[i].0 < e.records()[j].0);
    } else {
        assert(e.records()[j].0 < e.records()[i].0);
    }
}

/// Finalized blocks stay finalized: across any handler, every block that
/// was finalized before is still finalized, at the same position, with the
/// same height and hash.
pub proof fn lemma_finalized_stable(before: ConsensusEngine, after: ConsensusEngine, i: int)
    requires
        after.keeps(&before),
        0 <= i < before.records().len(),
    ensures
        i < after.records().len(),
        after.records()[i] == before.records()[i],
{
    assert(after.records().subrange(0, before.records().len() as int)[i] == before.records()[i]);
}

impl ConsensusEngine {
    /// Applies validator updates in order, then recomputes the total and
    /// the proposer priorities (see `ValidatorSet::apply_updates`).
    pub fn update_validator_set(&mut self, updates: &Vec<crate::validator::ValidatorUpdate>, now: i64) -> (r: Result<
        (),
        ConsensusError,
    >)
        requires
            old(self).wf(),
        ensures
            final(self).keeps(old(self)),
            final(self).records() == old(self).records(),
            ({
                let after = crate::validator::apply_all(
                    old(self).validator_set.vals(),
                    updates@,
                    old(self).validator_set.last_height,
                    old(self).validator_set.last_round,
                );
                &&& crate::validator::sum_power(after) > u64::MAX ==> r is Err && final(self).validator_set.vals()
                    == old(self).validator_set.vals()
                &&& crate::validator::sum_power(after) == 0 ==> r is Err && r->Err_0 is InvalidState
                    && final(self).validator_set.vals() == after
                &&& 0 < crate::validator::sum_power(after) <= u64::MAX ==> r is Ok && final(self).validator_set.vals()
                    == crate::validator::with_priorities(after, crate::validator::sum_power(after), now)
            }),
    {
        self.validator_set.apply_updates(updates, now)
    }

    /// Verifies evidence against the current validator set and accepted
    /// evidence, with the configured `max_evidence_age` (see
    /// `EvidencePool::verify_evidence`).
    pub fn verify_evidence(&self, evidence: &Evidence, now: i64) -> (r: Result<bool, ConsensusError>)
        requires
            self.wf(),
        ensures
            r == Ok::<bool, ConsensusError>(
                crate::evidence::evidence_verdict(
                    self.evidence_pool.accepted(),
                    self.config.max_evidence_age,
                    self.validator_set.vals(),
                    evidence@,
                    now,
                ),
            ),
    {
        self.evidence_pool.verify_evidence(&self.validator_set, evidence, now)
    }
}

impl ConsensusMessage {
    /// Delivers the message to `engine` (see `ConsensusEngine::handle_message`).
    pub fn handle(self, engine: &mut ConsensusEngine, now: i64) -> (r: Result<(), ConsensusError>)
        requires
            old(engine).wf(),
        ensures
            final(engine).keeps(old(engine)),
            self matches ConsensusMessage::NewRound { metadata } ==> final(engine).new_round_outcome(
                old(engine),
                metadata.height,
                metadata.round,
                r,
            ),
            self matches ConsensusMessage::Vote { metadata, block_hash, voter } ==> final(engine).vote_outcome(
                old(engine),
                VoteView {
                    validator: voter@,
                    height: metadata.height,
                    round: metadata.round,
                    block_hash: block_hash@,
                    timestamp: now,
                    signature: metadata.signature@,
                },
                now,
                r,
            ),
            self matches ConsensusMessage::Proposal { metadata, block, proposer } ==> final(engine).proposal_outcome(
                old(engine),
                (Proposal {
                    proposer,
                    height: metadata.height,
                    round: metadata.round,
                    block,
                    timestamp: now,
                    signature: metadata.signature,
                }),
                now,
                r,
            ),
            self matches ConsensusMessage::Commit { metadata, votes } ==> final(engine).commit_outcome(
                old(engine),
                metadata.height,
                match metadata.block_hash {
                    Some(h) => h@,
                    None => Seq::<u8>::empty(),
                },
                vote_views(votes@),
                r,
            ),
            self matches ConsensusMessage::Evidence { metadata, block_hash, voter } ==> final(engine).evidence_outcome(
                old(engine),
                EvidenceView {
                    evidence_type: EvidenceType::InvalidVote,
                    validator: voter@,
                    height: metadata.height,
                    round: metadata.round,
                    timestamp: now,
                    signature: metadata.signature@,
                },
                now,
                r,
            ),
    {
        engine.handle_message(self, now)
    }
}

impl ConsensusEngine {
    /// Drops accepted evidence older than the configured
    /// `max_evidence_age` at `now` (see `EvidencePool::prune_expired`).
    pub fn prune_evidence(&mut self, now: i64)
        requires
            old(self).wf(),
        ensures
            final(self).keeps(old(self)),
            final(self).evidence_pool.accepted() == crate::evidence::recent_only(
                old(self).evidence_pool.accepted(),
                old(self).config.max_evidence_age,
                now,
            ),
            final(self).evidence_pool.pending() == old(self).evidence_pool.pending(),
            final(self).validator_set == old(self).validator_set,
            final(self).state == old(self).state,
    {
        self.evidence_pool.prune_expired(now);
    }
}

/// Finalized blocks never change: across any handler the last committed
/// height only grows, and while it stays the same so does the last
/// committed hash.
pub proof fn lemma_last_commit_monotone(before: ConsensusEngine, after: ConsensusEngine)
    requires
        before.wf(),
        after.keeps(&before),
    ensures
        after.state.last_committed_height > before.state.last_committed_height || (
        after.state.last_committed_height == before.state.last_committed_height
            && after.state.last_committed_hash@ == before.state.last_committed_hash@),
{
}

} // verus!
