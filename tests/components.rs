use artha_core::block::{calculate_transaction_root, Block, BlockHeader};
use artha_core::discovery::NodeId;
use artha_core::engine::ConsensusEngine;
use artha_core::svbft::{SVBFTConsensus, Vote as SVote};
use ed25519_dalek::{Signer, SigningKey};
use artha_core::engine::{check_quorum, tally_votes};
use artha_core::error::ConsensusError;
use artha_core::evidence::{build_evidence_message, default_slashing_conditions, EvidenceType};
use artha_core::mempool::{Mempool, Transaction};
use artha_core::message::{build_commit_vote_message, build_vote_message, calculate_message_size, ConsensusMessage, MessageMetadata, Vote};
use artha_core::transport::{backoff_after_failure, BandwidthLimit, PeerLimits, RateLimit};
use artha_core::validator::{priority_value, Validator, ValidatorSet, ValidatorUpdate};

const NOW: i64 = 1_700_000_000_000;

fn tx(id: u8, fee: u64) -> Transaction {
    Transaction {
        id: vec![id],
        sender: vec![1; 32],
        receiver: vec![2; 32],
        amount: 1,
        fee,
        timestamp: NOW,
        signature: vec![0; 64],
    }
}

#[test]
fn mempool_eviction() {
    let mut m = Mempool::new(3);
    m.add_transaction(tx(1, 10), 10);
    m.add_transaction(tx(2, 20), 20);
    m.add_transaction(tx(3, 30), 30);
    assert_eq!(m.len(), 3);
    m.add_transaction(tx(4, 5), 5);
    assert_eq!(m.len(), 3);
    let mut ids: Vec<u8> = m.get_transactions().iter().map(|t| t.id[0]).collect();
    ids.sort();
    // the fee-10 transaction left before tx4 came in
    assert_eq!(ids, vec![2, 3, 4]);
    // tx4 is now the least: the next arrival evicts it
    m.add_transaction(tx(5, 100), 100);
    let mut ids: Vec<u8> = m.get_transactions().iter().map(|t| t.id[0]).collect();
    ids.sort();
    assert_eq!(ids, vec![2, 3, 5]);
}

#[test]
fn mempool_bound_holds() {
    let mut m = Mempool::new(4);
    for i in 0..50u8 {
        m.add_transaction(tx(i, (i as u64 * 7) % 13), (i as u64 * 7) % 13);
        assert!(m.len() <= 4);
    }
    assert_eq!(m.max_size(), 4);
    let top = m.top_by_priority(2);
    assert_eq!(top.len(), 2);
    assert!(top[0].fee >= top[1].fee);
    assert_eq!(m.top_by_priority(10).len(), 4);
}

#[test]
fn validator_set_updates_and_total() {
    let a = vec![1u8; 32];
    let b = vec![2u8; 32];
    let c = vec![3u8; 32];
    let mut vs = ValidatorSet::new(vec![a.clone(), b.clone(), a.clone()]);
    assert_eq!(vs.validators.len(), 2);
    assert_eq!(vs.total_voting_power, 2);
    assert_eq!(vs.validators[0].address, hex::encode(&a).into_bytes());
    let updates = vec![
        ValidatorUpdate::Add { pub_key: c.clone(), voting_power: 50 },
        ValidatorUpdate::Add { pub_key: a.clone(), voting_power: 999 },
        ValidatorUpdate::UpdateVotingPower { pub_key: b.clone(), voting_power: 30 },
        ValidatorUpdate::Remove { pub_key: a.clone() },
    ];
    vs.apply_updates(&updates, NOW).unwrap();
    assert_eq!(vs.validators.len(), 2);
    assert_eq!(vs.validators[0].pub_key, b);
    assert_eq!(vs.validators[0].voting_power, 30);
    assert_eq!(vs.validators[1].pub_key, c);
    assert_eq!(vs.total_voting_power, 80);
    let sum: u64 = vs.validators.iter().map(|v| v.voting_power).sum();
    assert_eq!(vs.total_voting_power, sum);
    // priorities: 30*50*130/(80*5) = 487, 50*50*150/(80*5) = 937
    assert_eq!(vs.validators[0].proposer_priority, 487);
    assert_eq!(vs.validators[1].proposer_priority, 937);
    assert_eq!(vs.proposer.as_ref().unwrap().pub_key, c);
    assert_eq!(vs.select_proposer(), Some(1));
}

#[test]
fn empty_set_is_invalid_state() {
    let a = vec![1u8; 32];
    let mut vs = ValidatorSet::new(vec![a.clone()]);
    let r = vs.apply_updates(&vec![ValidatorUpdate::Remove { pub_key: a }], NOW);
    assert!(matches!(r, Err(ConsensusError::InvalidState(_))));
    assert_eq!(vs.total_voting_power, 0);
    let mut vs = ValidatorSet::new(vec![vec![1u8; 32]]);
    let r = vs.apply_updates(
        &vec![
            ValidatorUpdate::Add { pub_key: vec![2u8; 32], voting_power: u64::MAX },
        ],
        NOW,
    );
    assert!(matches!(r, Err(ConsensusError::InvalidVotingPower(_))));
    assert_eq!(vs.validators.len(), 1);
}

fn validator(vp: u64, jailed_until: Option<i64>, slashes: u32) -> Validator {
    Validator {
        address: vec![],
        pub_key: vec![9; 32],
        voting_power: vp,
        proposer_priority: 0,
        jailed_until,
        accumulated_slashes: slashes,
        last_height: 0,
        last_round: 0,
    }
}

#[test]
fn proposer_priority_formula() {
    // (10/40)*1000 * (1 + 10/100) = 275
    assert_eq!(priority_value(&validator(10, None, 0), 40, NOW), 275);
    // jailed now: zero
    assert_eq!(priority_value(&validator(10, Some(NOW + 1), 0), 40, NOW), 0);
    // once jailed: halved
    assert_eq!(priority_value(&validator(10, Some(NOW - 1), 0), 40, NOW), 137);
    // two slashes: 1/(1 + 0.4)
    assert_eq!(priority_value(&validator(10, None, 2), 40, NOW), 196);
    // the whole power: 1000 * (1 + 1) = 2000
    assert_eq!(priority_value(&validator(100, None, 0), 100, NOW), 2000);
    // capped
    assert_eq!(priority_value(&validator(u64::MAX, None, 0), u64::MAX, NOW), i64::MAX);
}

#[test]
fn proposer_ties_go_to_the_last() {
    let vs = ValidatorSet::new(vec![vec![1u8; 32], vec![2u8; 32], vec![3u8; 32]]);
    assert_eq!(vs.select_proposer(), Some(2));
    assert_eq!(ValidatorSet::new(vec![]).select_proposer(), None);
}

#[test]
fn quorum_threshold() {
    assert!(check_quorum(30, 40, 2, 3));
    assert!(!check_quorum(26, 40, 2, 3));
    assert!(check_quorum(27, 40, 2, 3));
    assert!(!check_quorum(20, 40, 2, 3));
    assert!(check_quorum(1, 1, 2, 3));
    assert!(check_quorum(u64::MAX as u128 * 3, u64::MAX, 2, 1));
    assert!(!check_quorum(u64::MAX as u128, u64::MAX, 2, 1));
}

#[test]
fn tally_counts_each_validator_once() {
    let a = vec![1u8; 32];
    let b = vec![2u8; 32];
    let vs = ValidatorSet::new(vec![a.clone(), b.clone()]);
    let v = |k: &Vec<u8>, h: u8| Vote { validator: k.clone(), height: 1, round: 0, block_hash: vec![h], timestamp: 0, signature: vec![] };
    let votes = vec![v(&a, 1), v(&a, 1), v(&b, 2), v(&vec![7u8; 32], 1)];
    assert_eq!(tally_votes(&vs, &votes, None), 2);
    assert_eq!(tally_votes(&vs, &votes, Some(&vec![1])), 1);
    assert_eq!(tally_votes(&vs, &votes, Some(&vec![2])), 1);
}

#[test]
fn canonical_messages() {
    assert_eq!(build_vote_message(5, 0, &[0xab, 0x01]), b"5:0:ab01".to_vec());
    assert_eq!(build_vote_message(12345, 7, &[]), b"12345:7:".to_vec());
    assert_eq!(build_commit_vote_message(1, &[0xff]), b"1:ff".to_vec());
    assert_eq!(build_evidence_message(EvidenceType::DuplicateVote, 5), b"DuplicateVote:5".to_vec());
    assert_eq!(build_evidence_message(EvidenceType::InvalidCommit, 0), b"InvalidCommit:0".to_vec());
}

#[test]
fn default_slashing() {
    let c = default_slashing_conditions();
    assert_eq!(c.len(), 2);
    assert_eq!(c[0].slash_amount, 1000);
    assert_eq!(c[0].jail_duration, 24 * 3_600_000);
    assert_eq!(c[1].slash_amount, 5000);
    assert_eq!(c[1].jail_duration, 72 * 3_600_000);
}

fn metadata() -> MessageMetadata {
    MessageMetadata { height: 1, round: 0, sender: vec![], signature: vec![], block_hash: None }
}

#[test]
fn message_sizes() {
    assert_eq!(calculate_message_size(&ConsensusMessage::NewRound { metadata: metadata() }).unwrap(), 108);
    let vote = Vote { validator: vec![], height: 1, round: 0, block_hash: vec![], timestamp: 0, signature: vec![] };
    let commit = ConsensusMessage::Commit { metadata: metadata(), votes: vec![vote] };
    assert_eq!(calculate_message_size(&commit).unwrap(), 116 + 148);
    let ev = ConsensusMessage::Evidence { metadata: metadata(), block_hash: vec![], voter: vec![] };
    assert_eq!(calculate_message_size(&ev).unwrap(), 117);
}

#[test]
fn rate_limit_window() {
    let mut r = RateLimit::new(NOW);
    for _ in 0..100 {
        assert!(r.check(NOW + 10));
    }
    assert!(!r.check(NOW + 10));
    assert!(!r.check(NOW + 1000));
    assert!(r.check(NOW + 1001));
    assert_eq!(r.messages_sent, 1);
    let mut peers = PeerLimits::new();
    assert!(peers.check_rate_limit(b"peer-a", NOW));
    assert_eq!(peers.peers.len(), 1);
    assert!(peers.check_rate_limit(b"peer-a", NOW));
    assert_eq!(peers.peers[0].rate.messages_sent, 2);
}

#[test]
fn bandwidth_limit_window() {
    let mut b = BandwidthLimit::new(NOW);
    b.record_send(600_000, NOW).unwrap();
    assert!(matches!(b.record_send(400_001, NOW), Err(ConsensusError::NetworkError(_))));
    b.record_send(400_000, NOW).unwrap();
    b.record_send(500_000, NOW + 2000).unwrap();
    assert_eq!(b.bytes_sent, 500_000);
    let mut peers = PeerLimits::new();
    assert!(peers.record_send(b"peer-b", 2_000_000, NOW).is_err());
    assert!(peers.record_send(b"peer-b", 10, NOW).is_ok());
}

#[test]
fn broadcast_backoff() {
    assert_eq!(backoff_after_failure(1), Some(100));
    assert_eq!(backoff_after_failure(2), Some(200));
    assert_eq!(backoff_after_failure(3), None);
}

#[test]
fn node_distance_counts_shared_prefix() {
    let a = NodeId([0u8; 32]);
    assert_eq!(a.distance(&a), 256);
    let mut b = [0u8; 32];
    b[1] = 0x10;
    assert_eq!(a.distance(&NodeId(b)), 8 + 3);
    let mut c = [0u8; 32];
    c[0] = 0x80;
    assert_eq!(a.distance(&NodeId(c)), 0);
}

#[test]
fn svbft_finalizes_at_threshold() {
    let mut c = SVBFTConsensus::new(vec!["a".to_string(), "b".to_string(), "c".to_string()], 2);
    let v = |h: &str, who: &str| SVote { block_hash: h.to_string(), validator: who.to_string() };
    assert!(!c.add_vote(v("h1", "a")));
    assert_eq!(c.get_vote_count(&"h1".to_string()), 1);
    assert!(c.add_vote(v("h1", "b")));
    assert!(c.is_finalized(&"h1".to_string()));
    // already finalized: no second finalization
    assert!(!c.add_vote(v("h1", "c")));
    assert_eq!(c.get_vote_count(&"h1".to_string()), 3);
    assert_eq!(c.get_finalized_blocks_count(), 1);
    assert!(c.vote("h2".to_string(), "a".to_string()).is_err());
    assert!(c.vote("h2".to_string(), "b".to_string()).is_ok());
    assert_eq!(c.get_pending_votes_count(), 2);
    assert!(c.finalize_block(&"h2".to_string()).is_ok());
    assert!(c.finalize_block(&"h3".to_string()).is_err());
    assert_eq!(c.get_vote_count(&"h3".to_string()), 0);
}

#[test]
fn block_validation() {
    let txs = vec![tx(1, 1), tx(2, 2), tx(3, 3)];
    let root = calculate_transaction_root(&txs);
    let h = |d: &[u8]| <sha2::Sha256 as sha2::Digest>::digest(d).to_vec();
    let pair = |a: &[u8], b: &[u8]| { let mut v = a.to_vec(); v.extend_from_slice(b); h(&v) };
    let (h1, h2, h3) = (h(&[1]), h(&[2]), h(&[3]));
    assert_eq!(root, pair(&pair(&h1, &h2), &pair(&h3, &h3)));
    let header = BlockHeader {
        version: 1,
        previous_hash: vec![0; 32],
        timestamp: NOW,
        height: 1,
        proposer: vec![1; 32],
        transaction_root: root.clone(),
        state_root: vec![0; 32],
        evidence_root: vec![0; 32],
        validator_hash: vec![0; 32],
        consensus_hash: vec![0; 32],
        app_hash: vec![0; 32],
    };
    let block = Block { header, transactions: txs, merkle_root: hex::encode(&root).into_bytes(), state_root: vec![] };
    assert!(block.validate(NOW).is_ok());
    assert!(block.validate(NOW - 1).is_err());
    let mut b2 = block;
    b2.merkle_root[0] ^= 1;
    assert!(b2.validate(NOW).is_err());
    assert_eq!(calculate_transaction_root(&vec![]), vec![0u8; 32]);
}

#[test]
fn expired_transactions_stay_out_of_blocks() {
    let sk = SigningKey::from_bytes(&[1; 32]);
    let pk = sk.verifying_key().to_bytes().to_vec();
    let mut e = ConsensusEngine::new(pk.clone(), vec![1u8; 32], ValidatorSet::new(vec![pk.clone()]), None, NOW);
    e.start(NOW).unwrap();
    for (i, age) in [0i64, 25 * 3_600_000].iter().enumerate() {
        let msg = format!("{}:{}:{}:{}", hex::encode(&pk), hex::encode(&pk), 1, 10);
        e.add_transaction(Transaction {
            id: vec![i as u8],
            sender: pk.clone(),
            receiver: pk.clone(),
            amount: 1,
            fee: 10,
            timestamp: NOW - age,
            signature: sk.sign(msg.as_bytes()).to_bytes().to_vec(),
        })
        .unwrap();
    }
    let p = e.create_proposal(NOW).unwrap();
    assert_eq!(p.block.transactions.len(), 1);
    assert_eq!(p.block.transactions[0].id, vec![0]);
}

#[test]
fn zero_capacity_mempool_holds_nothing() {
    let mut m = Mempool::new(0);
    m.add_transaction(tx(1, 10), 10);
    assert_eq!(m.len(), 0);
    assert!(m.get_transactions().is_empty());
}

#[test]
fn known_peer_rate_limit_counts() {
    let mut peers = PeerLimits::new();
    for _ in 0..100 {
        assert!(peers.check_rate_limit(b"peer-c", NOW));
    }
    assert!(!peers.check_rate_limit(b"peer-c", NOW + 500));
    assert_eq!(peers.peers[0].rate.messages_sent, 100);
    assert!(peers.check_rate_limit(b"peer-c", NOW + 1500));
    assert_eq!(peers.peers[0].rate.messages_sent, 1);
    assert!(peers.record_send(b"peer-c", 999_999, NOW + 1500).is_ok());
    assert!(peers.record_send(b"peer-c", 2, NOW + 1500).is_err());
    assert_eq!(peers.peers[0].bandwidth.bytes_sent, 999_999);
}

#[test]
fn proposal_size_counts_hex_fields() {
    let block = Block::new(vec![0; 32], 1, vec![1; 32], vec![tx(1, 1)], vec![0; 32], NOW);
    let m = ConsensusMessage::Proposal { metadata: metadata(), block, proposer: vec![1; 32] };
    // 116 + 2*1 + 2*32 + 2*32 + 24 + 64
    assert_eq!(calculate_message_size(&m).unwrap(), 116 + 2 + 64 + 64 + 24 + 64);
}

#[test]
fn block_new_fills_header() {
    let txs = vec![tx(1, 1), tx(2, 2)];
    let root = calculate_transaction_root(&txs);
    let b = Block::new(vec![9; 32], 7, vec![1; 32], txs, vec![5; 32], NOW);
    assert_eq!(b.header.height, 7);
    assert_eq!(b.header.transaction_root, root);
    assert_eq!(b.header.app_hash, vec![5; 32]);
    assert_eq!(b.merkle_root, hex::encode(&root).into_bytes());
    assert!(b.validate(NOW).is_ok());
}

#[test]
fn zero_signature_never_verifies() {
    let sk = SigningKey::from_bytes(&[4; 32]);
    let pk = sk.verifying_key().to_bytes();
    assert_eq!(artha_core::crypto::check_signature(&pk, b"m", &[0u8; 64]), Some(false));
    let good = sk.sign(b"m").to_bytes();
    assert_eq!(artha_core::crypto::check_signature(&pk, b"m", &good), Some(true));
}
