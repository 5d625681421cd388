use artha_core::engine::{ConsensusEngine, RoundStep};
use artha_core::error::ConsensusError;
use artha_core::evidence::{Evidence, EvidenceType};
use artha_core::message::{ConsensusMessage, Vote};
use artha_core::validator::{ValidatorSet, ValidatorUpdate};
use ed25519_dalek::{Signer, SigningKey};

const NOW: i64 = 1_700_000_000_000;
const HOUR: i64 = 3_600_000;

fn key(seed: u8) -> (Vec<u8>, SigningKey) {
    let sk = SigningKey::from_bytes(&[seed; 32]);
    (sk.verifying_key().to_bytes().to_vec(), sk)
}

fn sign(sk: &SigningKey, msg: &str) -> Vec<u8> {
    sk.sign(msg.as_bytes()).to_bytes().to_vec()
}

fn set_with_powers(keys: &[Vec<u8>], power: u64) -> ValidatorSet {
    let mut vs = ValidatorSet::new(keys.to_vec());
    let updates: Vec<ValidatorUpdate> = keys
        .iter()
        .map(|k| ValidatorUpdate::UpdateVotingPower { pub_key: k.clone(), voting_power: power })
        .collect();
    vs.apply_updates(&updates, NOW).unwrap();
    vs
}

fn vote(sk: &SigningKey, pk: &[u8], height: u64, round: u32, hash: &[u8]) -> Vote {
    Vote {
        validator: pk.to_vec(),
        height,
        round,
        block_hash: hash.to_vec(),
        timestamp: NOW,
        signature: sign(sk, &format!("{}:{}:{}", height, round, hex::encode(hash))),
    }
}

#[test]
fn single_validator_happy_path() {
    let (pk, _sk) = key(1);
    let vs = ValidatorSet::new(vec![pk.clone()]);
    assert_eq!(vs.total_voting_power, 1);
    let mut e = ConsensusEngine::new(pk.clone(), vec![1u8; 32], vs, None, NOW);
    e.start(NOW).unwrap();
    assert_eq!(e.get_current_state().height, 1);
    assert_eq!(e.get_round_state().round, 0);
    assert_eq!(e.get_round_state().proposer, Some(pk.clone()));
    let proposal = e.create_proposal(NOW).unwrap();
    assert!(proposal.block.transactions.is_empty());
    e.handle_proposal(proposal, NOW).unwrap();
    let out = e.take_outbox();
    assert!(matches!(out[0], ConsensusMessage::NewRound { .. }));
    let mut fed = 0;
    for m in out {
        if let ConsensusMessage::Vote { .. } = m {
            e.handle_message(m, NOW).unwrap();
            fed += 1;
        }
    }
    assert_eq!(fed, 1);
    assert_eq!(e.get_current_state().height, 2);
    assert_eq!(e.get_current_state().last_committed_height, 1);
    assert_eq!(e.committed.len(), 1);
    assert_eq!(e.committed[0].height, 1);
    let out = e.take_outbox();
    assert!(out.iter().any(|m| matches!(m, ConsensusMessage::Commit { votes, .. } if votes.len() == 1)));
}

#[test]
fn three_of_four_quorum() {
    let keys: Vec<(Vec<u8>, SigningKey)> = (1..=4).map(key).collect();
    let pks: Vec<Vec<u8>> = keys.iter().map(|k| k.0.clone()).collect();
    assert_eq!(set_with_powers(&pks, 10).total_voting_power, 40);
    // an observer that is not a validator collects the votes
    let (obs, _) = key(9);
    let mut e = ConsensusEngine::new(obs.clone(), vec![9u8; 32], set_with_powers(&pks, 10), None, NOW);
    e.start(NOW).unwrap();
    let proposer = e.get_round_state().proposer.clone().unwrap();
    // equal priorities and powers: the last validator proposes
    assert_eq!(proposer, pks[3]);
    let idx = pks.iter().position(|p| *p == proposer).unwrap();
    let mut pe = ConsensusEngine::new(proposer.clone(), vec![(idx + 1) as u8; 32], set_with_powers(&pks, 10), None, NOW);
    pe.start(NOW).unwrap();
    let proposal = pe.create_proposal(NOW).unwrap();
    let hash = proposal.block.hash();
    e.handle_proposal(proposal, NOW).unwrap();
    let voters: Vec<usize> = (0..4).filter(|i| *i != 3).collect();
    for (n, i) in voters.iter().enumerate() {
        let v = vote(&keys[*i].1, &keys[*i].0, 1, 0, &hash);
        e.handle_vote(v, NOW).unwrap();
        if n < 2 {
            assert_eq!(e.get_current_state().height, 1);
        }
    }
    assert_eq!(e.get_current_state().height, 2);
    let out = e.take_outbox();
    let commits: Vec<&ConsensusMessage> = out.iter().filter(|m| matches!(m, ConsensusMessage::Commit { .. })).collect();
    assert_eq!(commits.len(), 1);
    if let ConsensusMessage::Commit { votes, metadata } = commits[0] {
        assert_eq!(votes.len(), 3);
        assert_eq!(metadata.block_hash.clone().unwrap(), hash);
    }
}

#[test]
fn vote_rejections() {
    let (pk, sk) = key(1);
    let (other, osk) = key(2);
    let mut e = ConsensusEngine::new(pk.clone(), vec![1u8; 32], ValidatorSet::new(vec![pk.clone()]), None, NOW);
    e.start(NOW).unwrap();
    let hash = vec![0xaa; 32];
    // malformed signature
    let mut v = vote(&sk, &pk, 1, 0, &hash);
    v.signature.truncate(10);
    assert!(matches!(e.handle_vote(v, NOW), Err(ConsensusError::InvalidSignature(_))));
    // modified payload
    let mut v = vote(&sk, &pk, 1, 0, &hash);
    v.block_hash[0] ^= 1;
    assert!(matches!(e.handle_vote(v, NOW), Err(ConsensusError::InvalidVote(_))));
    // not a validator
    let v = vote(&osk, &other, 1, 0, &hash);
    assert!(matches!(e.handle_vote(v, NOW), Err(ConsensusError::InvalidVote(_))));
    // wrong round
    let v = vote(&sk, &pk, 1, 4, &hash);
    assert!(matches!(e.handle_vote(v, NOW), Err(ConsensusError::InvalidVote(_))));
    // a valid vote with no proposal is just collected
    let v = vote(&sk, &pk, 1, 0, &hash);
    e.handle_vote(v, NOW).unwrap();
    assert_eq!(e.get_round_state().votes.len(), 1);
    // a conflicting second vote is flagged and the first one kept
    let v = vote(&sk, &pk, 1, 0, &[0xbb; 32]);
    e.handle_vote(v, NOW).unwrap();
    assert_eq!(e.get_round_state().votes.len(), 1);
    assert_eq!(e.get_round_state().votes[0].block_hash, hash);
    assert_eq!(e.get_evidence_pool().pending_evidence.len(), 1);
    assert_eq!(e.get_evidence_pool().pending_evidence[0].evidence_type, EvidenceType::DuplicateVote);
}

#[test]
fn create_proposal_needs_the_proposer() {
    let (a, _) = key(1);
    let (b, _) = key(2);
    let mut e = ConsensusEngine::new(a.clone(), vec![1u8; 32], ValidatorSet::new(vec![a.clone(), b.clone()]), None, NOW);
    e.start(NOW).unwrap();
    // equal validators: the last one proposes
    assert_eq!(e.get_round_state().proposer, Some(b));
    assert!(matches!(e.create_proposal(NOW), Err(ConsensusError::InvalidState(_))));
}

#[test]
fn proposal_is_signed_by_the_node_key() {
    let (pk, _) = key(1);
    let mut e = ConsensusEngine::new(pk.clone(), vec![1u8; 32], ValidatorSet::new(vec![pk.clone()]), None, NOW);
    e.start(NOW).unwrap();
    let p = e.create_proposal(NOW).unwrap();
    let vk = ed25519_dalek::VerifyingKey::from_bytes(&pk.clone().try_into().unwrap()).unwrap();
    let msg = format!("1:0:{}", hex::encode(p.block.hash()));
    let sig = ed25519_dalek::Signature::from_bytes(&p.signature.clone().try_into().unwrap());
    assert!(ed25519_dalek::Verifier::verify(&vk, msg.as_bytes(), &sig).is_ok());
    assert_eq!(p.block.header.transaction_root, vec![0u8; 32]);
    assert_eq!(p.block.header.height, 1);
}

#[test]
fn proposals_gather_transactions_by_fee() {
    let (pk, sk) = key(1);
    let mut e = ConsensusEngine::new(pk.clone(), vec![1u8; 32], ValidatorSet::new(vec![pk.clone()]), None, NOW);
    e.start(NOW).unwrap();
    for (i, fee) in [5u64, 50, 20].iter().enumerate() {
        let receiver = pk.clone();
        let msg = format!("{}:{}:{}:{}", hex::encode(&pk), hex::encode(&receiver), 7, fee);
        e.add_transaction(artha_core::mempool::Transaction {
            id: vec![i as u8],
            sender: pk.clone(),
            receiver,
            amount: 7,
            fee: *fee,
            timestamp: NOW,
            signature: sign(&sk, &msg),
        })
        .unwrap();
    }
    let p = e.create_proposal(NOW).unwrap();
    let fees: Vec<u64> = p.block.transactions.iter().map(|t| t.fee).collect();
    assert_eq!(fees, vec![50, 20, 5]);
    e.handle_proposal(p, NOW).unwrap();
    assert!(e.get_round_state().proposal.is_some());
}

#[test]
fn commit_needs_a_quorum() {
    let keys: Vec<(Vec<u8>, SigningKey)> = (1..=4).map(key).collect();
    let pks: Vec<Vec<u8>> = keys.iter().map(|k| k.0.clone()).collect();
    let mut e = ConsensusEngine::new(pks[0].clone(), vec![1u8; 32], set_with_powers(&pks, 10), None, NOW);
    e.start(NOW).unwrap();
    let hash = vec![0x11; 32];
    let commit_vote = |i: usize| Vote {
        validator: pks[i].clone(),
        height: 1,
        round: 0,
        block_hash: hash.clone(),
        timestamp: NOW,
        signature: sign(&keys[i].1, &format!("1:{}", hex::encode(&hash))),
    };
    // two distinct validators (20 of 40), the second one twice
    let commit = artha_core::message::Commit {
        height: 1,
        round: 0,
        block_hash: hash.clone(),
        votes: vec![commit_vote(0), commit_vote(1), commit_vote(1)],
        timestamp: NOW,
        signature: vec![],
    };
    assert!(matches!(e.handle_commit(commit, NOW), Err(ConsensusError::InvalidCommit(_))));
    let commit = artha_core::message::Commit {
        height: 1,
        round: 0,
        block_hash: hash.clone(),
        votes: vec![commit_vote(0), commit_vote(1), commit_vote(2)],
        timestamp: NOW,
        signature: vec![],
    };
    // a quorum, but no proposal for that block: kept, nothing finalized
    e.handle_commit(commit, NOW).unwrap();
    assert!(e.get_round_state().last_commit.is_some());
    assert_eq!(e.get_current_state().height, 1);
    let commit = artha_core::message::Commit {
        height: 7,
        round: 0,
        block_hash: hash.clone(),
        votes: vec![],
        timestamp: NOW,
        signature: vec![],
    };
    assert!(matches!(e.handle_commit(commit, NOW), Err(ConsensusError::InvalidCommit(_))));
}

#[test]
fn new_round_at_wrong_height_is_rejected() {
    let (pk, _) = key(1);
    let mut e = ConsensusEngine::new(pk.clone(), vec![1u8; 32], ValidatorSet::new(vec![pk.clone()]), None, NOW);
    e.start(NOW).unwrap();
    assert!(matches!(e.handle_new_round(5, 1, NOW), Err(ConsensusError::InvalidState(_))));
    e.handle_new_round(1, 3, NOW).unwrap();
    assert_eq!(e.get_round_state().round, 3);
    assert_eq!(e.get_round_state().step, RoundStep::NewRound);
}

fn duplicate_vote_evidence(sk: &SigningKey, pk: &[u8], height: u64, timestamp: i64) -> Evidence {
    Evidence {
        evidence_type: EvidenceType::DuplicateVote,
        validator: pk.to_vec(),
        height,
        round: 0,
        timestamp,
        signature: sign(sk, &format!("DuplicateVote:{}", height)),
    }
}

#[test]
fn byzantine_double_vote_slash() {
    let (pk, sk) = key(3);
    let vs = set_with_powers(&[pk.clone()], 2000);
    let mut e = ConsensusEngine::new(pk.clone(), vec![3u8; 32], vs, None, NOW);
    e.handle_evidence(duplicate_vote_evidence(&sk, &pk, 5, NOW), NOW).unwrap();
    assert_eq!(e.get_evidence_pool().pending_evidence.len(), 1);
    e.handle_evidence(duplicate_vote_evidence(&sk, &pk, 5, NOW), NOW).unwrap();
    let pool = e.get_evidence_pool();
    assert_eq!(pool.pending_evidence.len(), 0);
    assert_eq!(pool.evidence.len(), 1);
    let v = &e.get_validator_set().validators[0];
    assert_eq!(v.accumulated_slashes, 1);
    assert_eq!(v.voting_power, 1000);
    assert_eq!(v.jailed_until, Some(NOW + 24 * HOUR));
    assert_eq!(e.get_validator_set().total_voting_power, 1000);
}

#[test]
fn stale_evidence_rejected() {
    let (pk, sk) = key(3);
    let vs = ValidatorSet::new(vec![pk.clone()]);
    let pool = artha_core::evidence::EvidencePool::new();
    let stale = duplicate_vote_evidence(&sk, &pk, 5, NOW - 25 * HOUR);
    assert_eq!(pool.verify_evidence(&vs, &stale, NOW).unwrap(), false);
    assert_eq!(pool.evidence.len(), 0);
    let fresh = duplicate_vote_evidence(&sk, &pk, 5, NOW - HOUR);
    assert_eq!(pool.verify_evidence(&vs, &fresh, NOW).unwrap(), true);
    let mut bad = duplicate_vote_evidence(&sk, &pk, 5, NOW);
    bad.signature = vec![1, 2, 3];
    assert_eq!(pool.verify_evidence(&vs, &bad, NOW).unwrap(), false);
    let mut zero = duplicate_vote_evidence(&sk, &pk, 5, NOW);
    zero.signature = vec![0u8; 64];
    assert_eq!(pool.verify_evidence(&vs, &zero, NOW).unwrap(), false);
    let (stranger, ssk) = key(4);
    let unknown = duplicate_vote_evidence(&ssk, &stranger, 5, NOW);
    assert_eq!(pool.verify_evidence(&vs, &unknown, NOW).unwrap(), false);
    let wrong_height = Evidence { height: 6, ..duplicate_vote_evidence(&sk, &pk, 5, NOW) };
    assert_eq!(pool.verify_evidence(&vs, &wrong_height, NOW).unwrap(), false);
}

#[test]
fn invalid_vote_evidence_from_messages_slashes_harder() {
    let (pk, sk) = key(5);
    let vs = set_with_powers(&[pk.clone()], 8000);
    let mut cfg = artha_core::engine::ConsensusConfig::default_config();
    cfg.min_evidence_count = 1;
    let mut e = ConsensusEngine::new(pk.clone(), vec![5u8; 32], vs, Some(cfg), NOW);
    let msg = ConsensusMessage::Evidence {
        metadata: artha_core::message::MessageMetadata {
            height: 9,
            round: 0,
            sender: pk.clone(),
            signature: sign(&sk, "InvalidVote:9"),
            block_hash: None,
        },
        block_hash: vec![],
        voter: pk.clone(),
    };
    e.handle_message(msg, NOW).unwrap();
    let v = &e.get_validator_set().validators[0];
    assert_eq!(v.voting_power, 3000);
    assert_eq!(v.jailed_until, Some(NOW + 72 * HOUR));
}

#[test]
fn evidence_age_follows_configuration() {
    let (pk, sk) = key(3);
    let mut cfg = artha_core::engine::ConsensusConfig::default_config();
    cfg.max_evidence_age = 2 * HOUR;
    let e = ConsensusEngine::new(pk.clone(), vec![3u8; 32], ValidatorSet::new(vec![pk.clone()]), Some(cfg), NOW);
    let ev = duplicate_vote_evidence(&sk, &pk, 5, NOW - 3 * HOUR);
    assert_eq!(e.verify_evidence(&ev, NOW).unwrap(), false);
    let ev = duplicate_vote_evidence(&sk, &pk, 5, NOW - HOUR);
    assert_eq!(e.verify_evidence(&ev, NOW).unwrap(), true);
    let d = ConsensusEngine::new(pk.clone(), vec![3u8; 32], ValidatorSet::new(vec![pk.clone()]), None, NOW);
    let stale = duplicate_vote_evidence(&sk, &pk, 5, NOW - 25 * HOUR);
    assert_eq!(d.verify_evidence(&stale, NOW).unwrap(), false);
}

#[test]
fn old_evidence_is_pruned() {
    let (pk, sk) = key(3);
    let vs = set_with_powers(&[pk.clone()], 2000);
    let mut e = ConsensusEngine::new(pk.clone(), vec![3u8; 32], vs, None, NOW);
    e.handle_evidence(duplicate_vote_evidence(&sk, &pk, 5, NOW), NOW).unwrap();
    e.handle_evidence(duplicate_vote_evidence(&sk, &pk, 6, NOW), NOW).unwrap();
    assert_eq!(e.get_evidence_pool().evidence.len(), 1);
    e.prune_evidence(NOW + 23 * HOUR);
    assert_eq!(e.get_evidence_pool().evidence.len(), 1);
    e.prune_evidence(NOW + 25 * HOUR);
    assert_eq!(e.get_evidence_pool().evidence.len(), 0);
}

#[test]
fn commit_for_finalized_height_is_rejected() {
    let (pk, sk) = key(1);
    let mut e = ConsensusEngine::new(pk.clone(), vec![1u8; 32], ValidatorSet::new(vec![pk.clone()]), None, NOW);
    e.start(NOW).unwrap();
    let p = e.create_proposal(NOW).unwrap();
    let hash = p.block.hash();
    e.handle_proposal(p, NOW).unwrap();
    let v = vote(&sk, &pk, 1, 0, &hash);
    e.handle_vote(v, NOW).unwrap();
    assert_eq!(e.get_current_state().height, 2);
    assert_eq!(e.get_current_state().last_committed_hash, hash);
    let late = artha_core::message::Commit {
        height: 1,
        round: 0,
        block_hash: hash.clone(),
        votes: vec![Vote {
            validator: pk.clone(),
            height: 1,
            round: 0,
            block_hash: hash.clone(),
            timestamp: NOW,
            signature: sign(&sk, &format!("1:{}", hex::encode(&hash))),
        }],
        timestamp: NOW,
        signature: vec![],
    };
    assert!(matches!(e.handle_commit(late, NOW), Err(ConsensusError::InvalidCommit(_))));
    assert_eq!(e.get_current_state().last_committed_height, 1);
    assert_eq!(e.committed.len(), 1);
}
