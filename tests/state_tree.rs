use artha_core::bytes::{bytes_lt, copy_bytes};
use artha_core::crypto::{check_signature, hex_encode, sha256};
use artha_core::merkle::{hash_pair, verify_merkle_proof, MerkleTree};
use sha2::{Digest, Sha256};

fn leaf(key: &[u8], value: &[u8], version: u64) -> Vec<u8> {
    let mut b = key.to_vec();
    b.extend_from_slice(value);
    b.extend_from_slice(&version.to_le_bytes());
    Sha256::digest(&b).to_vec()
}

fn pair(a: &[u8], b: &[u8]) -> Vec<u8> {
    let mut v = a.to_vec();
    v.extend_from_slice(b);
    Sha256::digest(&v).to_vec()
}

#[test]
fn empty_tree_has_zero_root() {
    let t = MerkleTree::new();
    assert_eq!(t.get_root(), vec![0u8; 32]);
    assert_eq!(t.get_version(), 0);
    assert!(t.get(b"a").is_none());
}

#[test]
fn sha256_matches_known_digest() {
    let d = sha256(b"abc");
    assert_eq!(
        hex::encode(&d),
        "ba7816bf8f01cfea414140de5dae2223b00361a396177a9cb410ff61f20015ad"
    );
}

#[test]
fn hex_encode_is_lowercase_pairs() {
    assert_eq!(hex_encode(&[0x00, 0xab, 0x1f]), b"00ab1f".to_vec());
}

#[test]
fn byte_order_is_lexicographic() {
    assert!(bytes_lt(b"a", b"b"));
    assert!(bytes_lt(b"a", b"ab"));
    assert!(!bytes_lt(b"b", b"ab"));
    assert!(!bytes_lt(b"a", b"a"));
    assert_eq!(copy_bytes(b"xyz"), b"xyz".to_vec());
}

#[test]
fn hash_pair_hashes_concatenation() {
    assert_eq!(hash_pair(b"ab", b"cd"), Sha256::digest(b"abcd").to_vec());
}

#[test]
fn update_versions_and_root_of_one_key() {
    let mut t = MerkleTree::new();
    let root = t.update(b"k".to_vec(), b"v".to_vec()).unwrap();
    assert_eq!(t.get_version(), 1);
    assert_eq!(root, leaf(b"k", b"v", 1));
    assert_eq!(t.get_root(), root);
    let n = t.get(b"k").unwrap();
    assert_eq!(n.value, b"v".to_vec());
    assert_eq!(n.version, 1);
    t.update(b"k".to_vec(), b"w".to_vec()).unwrap();
    assert_eq!(t.get_version(), 2);
    assert_eq!(t.get(b"k").unwrap().version, 2);
    assert_eq!(t.get_root(), leaf(b"k", b"w", 2));
}

#[test]
fn root_of_three_keys_duplicates_odd_tail() {
    let mut t = MerkleTree::new();
    // inserted out of order; the root follows key order
    t.update(b"c".to_vec(), vec![3]).unwrap();
    t.update(b"a".to_vec(), vec![1]).unwrap();
    t.update(b"b".to_vec(), vec![2]).unwrap();
    let ha = leaf(b"a", &[1], 2);
    let hb = leaf(b"b", &[2], 3);
    let hc = leaf(b"c", &[3], 1);
    let expected = pair(&pair(&ha, &hb), &pair(&hc, &hc));
    assert_eq!(t.get_root(), expected);
}

#[test]
fn merkle_proof_scenario() {
    let mut t = MerkleTree::new();
    t.update(b"a".to_vec(), vec![1]).unwrap();
    t.update(b"b".to_vec(), vec![2]).unwrap();
    t.update(b"c".to_vec(), vec![3]).unwrap();
    let proof = t.create_proof(b"b").unwrap();
    assert_eq!(proof.siblings.len(), 2);
    assert_eq!(proof.key, b"b".to_vec());
    assert_eq!(proof.value, vec![2]);
    assert_eq!(proof.version, 2);
    assert_eq!(proof.root, t.get_root());
    let ha = leaf(b"a", &[1], 1);
    let hc = leaf(b"c", &[3], 3);
    assert_eq!(proof.siblings[0], ha);
    assert_eq!(proof.siblings[1], pair(&hc, &hc));
    // the hash of "a" sorts after the key "b" although "a" is the left
    // child, so the key-ordered fold misses the root
    assert!(ha > b"b".to_vec());
    assert!(!t.verify_proof(&proof).unwrap());
    let mut bad = proof.clone();
    bad.siblings[0][0] ^= 1;
    assert!(!t.verify_proof(&bad).unwrap());
}

#[test]
fn merkle_proof_round_trip_when_keys_order_as_positions() {
    let mut t = MerkleTree::new();
    t.update(vec![0x00], b"low".to_vec()).unwrap();
    t.update(vec![0xff], b"high".to_vec()).unwrap();
    for key in [vec![0x00u8], vec![0xffu8]] {
        let proof = t.create_proof(&key).unwrap();
        assert_eq!(proof.siblings.len(), 1);
        assert!(t.verify_proof(&proof).unwrap());
        let mut bad = proof.clone();
        bad.siblings[0][5] ^= 0x80;
        assert!(!t.verify_proof(&bad).unwrap());
    }
}

#[test]
fn single_key_proof_verifies() {
    let mut t = MerkleTree::new();
    t.update(b"only".to_vec(), b"x".to_vec()).unwrap();
    let proof = t.create_proof(b"only").unwrap();
    assert!(proof.siblings.is_empty());
    assert!(t.verify_proof(&proof).unwrap());
}

#[test]
fn proof_of_missing_key_fails() {
    let mut t = MerkleTree::new();
    t.update(b"a".to_vec(), vec![1]).unwrap();
    assert!(matches!(
        t.create_proof(b"z"),
        Err(artha_core::error::ConsensusError::StateError(_))
    ));
}

#[test]
fn same_updates_give_same_root_and_version() {
    let ops: Vec<(Vec<u8>, Vec<u8>)> = vec![
        (b"x".to_vec(), vec![1]),
        (b"y".to_vec(), vec![2]),
        (b"x".to_vec(), vec![3]),
        (b"a".to_vec(), vec![4]),
        (b"m".to_vec(), vec![5]),
    ];
    let mut t1 = MerkleTree::new();
    let mut t2 = MerkleTree::new();
    for (k, v) in &ops {
        t1.update(k.clone(), v.clone()).unwrap();
    }
    for (k, v) in &ops {
        t2.update(k.clone(), v.clone()).unwrap();
    }
    assert_eq!(t1.get_root(), t2.get_root());
    assert_eq!(t1.get_version(), 5);
    assert_eq!(t2.get_version(), 5);
}

#[test]
fn malformed_signature_is_not_a_verdict() {
    let key = [7u8; 32];
    assert_eq!(check_signature(&key, b"m", &[0u8; 10]), None);
    assert_eq!(check_signature(&key, b"m", &[0u8; 64]), Some(false));
}

#[test]
fn sorted_pair_proof() {
    let leaf = b"leaf".to_vec();
    let h = Sha256::digest(&leaf).to_vec();
    let s1 = vec![0x00u8; 32];
    let s2 = vec![0xffu8; 32];
    // h sorts after s1 and before s2
    let step1 = pair(&s1, &h);
    let root = if step1 < s2 { pair(&step1, &s2) } else { pair(&s2, &step1) };
    assert!(verify_merkle_proof(&root, &leaf, &vec![s1.clone(), s2.clone()]));
    assert!(!verify_merkle_proof(&root, b"other", &vec![s1.clone(), s2.clone()]));
    assert!(verify_merkle_proof(&h, &leaf, &vec![]));
}
