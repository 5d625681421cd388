//! The authenticated state tree: a versioned map from byte keys to byte
//! values whose root is a SHA-256 reduction of the node hashes in key order.
use vstd::prelude::*;

use crate::bytes::{
    bytes_eq, bytes_lt, copy_bytes, le_bytes, lemma_lex_lt_total,
    lemma_lex_lt_transitive, lex_lt, push_all, push_le_bytes,
};
use crate::crypto::{sha256, sha256_of};
use crate::error::ConsensusError;

verus! {

/// One stored key with its value, the tree version at which it was last
/// written and its hash.
#[derive(Debug, Clone)]
pub struct StateNode {
    pub key: Vec<u8>,
    pub value: Vec<u8>,
    pub version: u64,
    pub hash: Vec<u8>,
}

/// A key, its value and version, the sibling hashes on its path to the root,
/// and the root they lead to.
#[derive(Debug, Clone)]
pub struct MerkleProof {
    pub key: Vec<u8>,
    pub value: Vec<u8>,
    pub version: u64,
    pub siblings: Vec<Vec<u8>>,
    pub root: Vec<u8>,
}

/// The versioned state tree. Nodes are held in ascending key order.
#[derive(Debug, Clone)]
pub struct MerkleTree {
    nodes: Vec<StateNode>,
    root: Vec<u8>,
    version: u64,
}

/// What a node holds, without its hash: key, value and version.
pub type Entry = (Seq<u8>, Seq<u8>, u64);

/// The 32 zero bytes that stand for the root of an empty tree.
pub open spec fn zero_root() -> Seq<u8> {
    Seq::new(32, |i: int| 0u8)
}

/// `hash = SHA256(key || value || LE64(version))`.
pub open spec fn leaf_hash(key: Seq<u8>, value: Seq<u8>, version: u64) -> Seq<u8> {
    sha256_of(key + value + le_bytes(version as nat, 8))
}

/// The hash of two children, left then right.
pub open spec fn pair_hash(left: Seq<u8>, right: Seq<u8>) -> Seq<u8> {
    sha256_of(left + right)
}

/// The right partner of position `2 * i` in a level; the last node of an odd
/// level is paired with itself.
pub open spec fn right_of(level: Seq<Seq<u8>>, i: int) -> Seq<u8> {
    if 2 * i + 1 < level.len() {
        level[2 * i + 1]
    } else {
        level[2 * i]
    }
}

/// The level above `level`: pairwise hashes, the last node duplicated when
/// the length is odd.
pub open spec fn next_level(level: Seq<Seq<u8>>) -> Seq<Seq<u8>> {
    Seq::new(((level.len() + 1) / 2) as nat, |i: int| pair_hash(level[2 * i], right_of(level, i)))
}

/// Reduces a non-empty level to its root.
pub open spec fn reduce_root(level: Seq<Seq<u8>>) -> Seq<u8>
    decreases level.len(),
{
    if level.len() <= 1 {
        level[0]
    } else {
        reduce_root(next_level(level))
    }
}

/// The root over the leaf hashes in key order; 32 zero bytes when empty.
pub open spec fn tree_root(leaves: Seq<Seq<u8>>) -> Seq<u8> {
    if leaves.len() == 0 {
        zero_root()
    } else {
        reduce_root(leaves)
    }
}

/// The leaf hashes of a sequence of entries.
pub open spec fn leaf_hashes(es: Seq<Entry>) -> Seq<Seq<u8>> {
    Seq::new(es.len(), |i: int| leaf_hash(es[i].0, es[i].1, es[i].2))
}

/// Entries in strictly ascending key order.
pub open spec fn keys_sorted(es: Seq<Entry>) -> bool {
    forall|i: int, j: int| 0 <= i < j < es.len() ==> lex_lt(#[trigger] es[i].0, #[trigger] es[j].0)
}

/// How many entries have a key below `key`: where `key` stands, or would
/// stand, in a sorted sequence.
pub open spec fn count_less(es: Seq<Entry>, key: Seq<u8>) -> nat
    decreases es.len(),
{
    if es.len() == 0 {
        0
    } else {
        count_less(es.drop_last(), key) + if lex_lt(es.last().0, key) {
            1nat
        } else {
            0nat
        }
    }
}

/// Whether `key` is stored.
pub open spec fn has_key(es: Seq<Entry>, key: Seq<u8>) -> bool {
    count_less(es, key) < es.len() && es[count_less(es, key) as int].0 == key
}

/// The entries after writing `value` under `key` at version `version`:
/// overwritten in place, or inserted at its position in key order.
pub open spec fn upsert(es: Seq<Entry>, key: Seq<u8>, value: Seq<u8>, version: u64) -> Seq<Entry> {
    let pos = count_less(es, key) as int;
    if has_key(es, key) {
        es.update(pos, (key, value, version))
    } else {
        es.insert(pos, (key, value, version))
    }
}

/// The sibling hashes on the way from position `idx` of `level` to the root,
/// lowest level first.
pub open spec fn proof_path(level: Seq<Seq<u8>>, idx: int) -> Seq<Seq<u8>>
    decreases level.len(),
{
    if level.len() <= 1 {
        seq![]
    } else {
        let sib = if idx % 2 == 0 {
            right_of(level, idx / 2)
        } else {
            level[idx - 1]
        };
        seq![sib] + proof_path(next_level(level), idx / 2)
    }
}

/// Folds `siblings` into `current`: left-then-right when `key` sorts before
/// the sibling, right-then-left otherwise.
pub open spec fn fold_proof(current: Seq<u8>, key: Seq<u8>, siblings: Seq<Seq<u8>>) -> Seq<u8>
    decreases siblings.len(),
{
    if siblings.len() == 0 {
        current
    } else {
        let next = if lex_lt(key, siblings[0]) {
            pair_hash(current, siblings[0])
        } else {
            pair_hash(siblings[0], current)
        };
        fold_proof(next, key, siblings.drop_first())
    }
}

/// At every level on the way up from `idx`, the order that the key gives
/// (`key` before the sibling, or not) is the order of the positions.
pub open spec fn order_agrees(level: Seq<Seq<u8>>, idx: int, key: Seq<u8>) -> bool
    decreases level.len(),
{
    if level.len() <= 1 {
        true
    } else {
        let here = if idx % 2 == 0 {
            2 * (idx / 2) + 1 >= level.len() || lex_lt(key, level[idx + 1])
        } else {
            !lex_lt(key, level[idx - 1])
        };
        here && order_agrees(next_level(level), idx / 2, key)
    }
}

/// The byte strings held by a vector of hashes.
pub open spec fn hashes_view(v: Seq<Vec<u8>>) -> Seq<Seq<u8>> {
    Seq::new(v.len(), |i: int| v[i]@)
}

impl StateNode {
    pub open spec fn entry(&self) -> Entry {
        (self.key@, self.value@, self.version)
    }
}

impl MerkleTree {
    /// The stored entries, in key order.
    pub closed spec fn entries(&self) -> Seq<Entry> {
        Seq::new(self.nodes@.len(), |i: int| self.nodes@[i].entry())
    }

    pub closed spec fn spec_version(&self) -> u64 {
        self.version
    }

    pub closed spec fn spec_root(&self) -> Seq<u8> {
        self.root@
    }

    pub closed spec fn wf(&self) -> bool {
        &&& keys_sorted(self.entries())
        &&& forall|i: int|
            0 <= i < self.nodes@.len() ==> (#[trigger] self.nodes@[i]).hash@ == leaf_hash(
                self.nodes@[i].key@,
                self.nodes@[i].value@,
                self.nodes@[i].version,
            )
        &&& self.root@ == tree_root(leaf_hashes(self.entries()))
    }

    /// An empty tree at version 0, whose root is 32 zero bytes.
    pub fn new() -> (r: Self)
        ensures
            r.wf(),
            r.entries() == Seq::<Entry>::empty(),
            r.spec_version() == 0,
            r.spec_root() == zero_root(),
            r.spec_root() == tree_root(leaf_hashes(r.entries())),
    {
        let r = MerkleTree { nodes: Vec::new(), root: vec![0u8; 32], version: 0 };
        assert(r.root@ =~= zero_root());
        assert(r.entries() =~= Seq::<Entry>::empty());
        r
    }

    /// Writes `value` under `key`: the version goes up by one, the node is
    /// inserted or overwritten with that version, and the root is
    /// recomputed and returned. Fails only when the version cannot grow.
    pub fn update(&mut self, key: Vec<u8>, value: Vec<u8>) -> (r: Result<Vec<u8>, ConsensusError>)
        requires
            old(self).wf(),
        ensures
            final(self).wf(),
            old(self).spec_version() == u64::MAX ==> r is Err && *final(self) == *old(self),
            old(self).spec_version() < u64::MAX ==> {
                &&& r is Ok
                &&& final(self).spec_version() == old(self).spec_version() + 1
                &&& final(self).entries() == upsert(
                    old(self).entries(),
                    key@,
                    value@,
                    final(self).spec_version(),
                )
                &&& r->Ok_0@ == final(self).spec_root()
            },
            final(self).spec_root() == tree_root(leaf_hashes(final(self).entries())),
    {
        if self.version == u64::MAX {
            return Err(ConsensusError::StateError("version overflow".to_owned()));
        }
        self.version = self.version + 1;
        let mut buf = copy_bytes(&key);
        push_all(&mut buf, &value);
        push_le_bytes(&mut buf, self.version, 8);
        let node_hash = sha256(&buf);
        let ghost es = self.entries();
        let pos = self.position_of(&key);
        proof {
            lemma_count_less_at(es, key@, pos as int);
        }
        let node = StateNode { key, value, version: self.version, hash: node_hash };
        if pos < self.nodes.len() && bytes_eq(&self.nodes[pos].key, &node.key) {
            self.nodes.set(pos, node);
            assert(self.entries() =~= upsert(es, node.key@, node.value@, self.version));
        } else {
            proof {
                if pos < es.len() {
                    lemma_lex_lt_total(es[pos as int].0, node.key@);
                }
            }
            self.nodes.insert(pos, node);
            assert(self.entries() =~= upsert(es, node.key@, node.value@, self.version));
        }
        proof {
            let ne = self.entries();
            assert forall|i: int, j: int| 0 <= i < j < ne.len() implies lex_lt(
                #[trigger] ne[i].0,
                #[trigger] ne[j].0,
            ) by {
                lemma_upsert_sorted_pair(es, node.key@, node.value@, self.version, i, j);
            }
        }
        self.recalculate_root();
        Ok(copy_bytes(&self.root))
    }

    /// The index of the first node whose key is not below `key`.
    fn position_of(&self, key: &Vec<u8>) -> (pos: usize)
        requires
            self.wf(),
        ensures
            pos <= self.nodes@.len(),
            forall|j: int| 0 <= j < pos ==> lex_lt(#[trigger] self.entries()[j].0, key@),
            forall|j: int|
                pos <= j < self.nodes@.len() ==> !lex_lt(#[trigger] self.entries()[j].0, key@),
    {
        let ghost es = self.entries();
        let mut i: usize = 0;
        while i < self.nodes.len() && bytes_lt(&self.nodes[i].key, key)
            invariant
                0 <= i <= self.nodes@.len(),
                es == self.entries(),
                forall|j: int| 0 <= j < i ==> lex_lt(#[trigger] es[j].0, key@),
            decreases self.nodes@.len() - i,
        {
            i = i + 1;
        }
        proof {
            assert forall|j: int| i <= j < self.nodes@.len() implies !lex_lt(
                #[trigger] es[j].0,
                key@,
            ) by {
                if j > i && lex_lt(es[j].0, key@) {
                    assert(lex_lt(es[i as int].0, es[j].0));
                    lemma_lex_lt_transitive(es[i as int].0, es[j].0, key@);
                }
            }
        }
        i
    }

    /// Recomputes the root from the node hashes in key order.
    fn recalculate_root(&mut self)
        requires
            keys_sorted(old(self).entries()),
            forall|i: int|
                0 <= i < old(self).nodes@.len() ==> (#[trigger] old(self).nodes@[i]).hash@
                    == leaf_hash(
                    old(self).nodes@[i].key@,
                    old(self).nodes@[i].value@,
                    old(self).nodes@[i].version,
                ),
        ensures
            final(self).wf(),
            final(self).nodes == old(self).nodes,
            final(self).version == old(self).version,
    {
        if self.nodes.len() == 0 {
            self.root = vec![0u8; 32];
            assert(self.root@ =~= zero_root());
            return;
        }
        let leaves = self.leaf_level();
        self.root = root_of_level(leaves);
    }

    /// The node hashes in key order.
    fn leaf_level(&self) -> (r: Vec<Vec<u8>>)
        requires
            forall|i: int|
                0 <= i < self.nodes@.len() ==> (#[trigger] self.nodes@[i]).hash@ == leaf_hash(
                    self.nodes@[i].key@,
                    self.nodes@[i].value@,
                    self.nodes@[i].version,
                ),
        ensures
            hashes_view(r@) == leaf_hashes(self.entries()),
            r@.len() == self.nodes@.len(),
    {
        let mut r: Vec<Vec<u8>> = Vec::new();
        let mut i: usize = 0;
        while i < self.nodes.len()
            invariant
                0 <= i <= self.nodes@.len(),
                r@.len() == i,
                forall|j: int| 0 <= j < i ==> (#[trigger] r@[j])@ == self.nodes@[j].hash@,
            decreases self.nodes@.len() - i,
        {
            r.push(copy_bytes(&self.nodes[i].hash));
            i = i + 1;
        }
        assert(hashes_view(r@) =~= leaf_hashes(self.entries()));
        r
    }

    /// The stored node for `key`, if any.
    pub fn get(&self, key: &[u8]) -> (r: Option<&StateNode>)
        requires
            self.wf(),
        ensures
            r is Some <==> has_key(self.entries(), key@),
            r is Some ==> r->Some_0.entry() == self.entries()[count_less(self.entries(), key@) as int],
            r is Some ==> r->Some_0.hash@ == leaf_hash(r->Some_0.key@, r->Some_0.value@, r->Some_0.version),
    {
        let k = copy_bytes(key);
        let pos = self.position_of(&k);
        proof {
            lemma_count_less_at(self.entries(), key@, pos as int);
        }
        if pos < self.nodes.len() && bytes_eq(&self.nodes[pos].key, key) {
            Some(&self.nodes[pos])
        } else {
            None
        }
    }

    /// The current root.
    pub fn get_root(&self) -> (r: Vec<u8>)
        ensures
            r@ == self.spec_root(),
    {
        copy_bytes(&self.root)
    }

    /// The current version: the number of updates applied.
    pub fn get_version(&self) -> (r: u64)
        ensures
            r == self.spec_version(),
    {
        self.version
    }

    /// An inclusion proof for `key`: its value and version, the sibling path
    /// up the balanced tree (an odd tail pairs with itself) and the root.
    /// Fails with `StateError` when the key is not stored.
    pub fn create_proof(&self, key: &[u8]) -> (r: Result<MerkleProof, ConsensusError>)
        requires
            self.wf(),
        ensures
            r is Ok <==> has_key(self.entries(), key@),
            r is Err ==> r->Err_0 is StateError,
            r is Ok ==> {
                let idx = count_less(self.entries(), key@) as int;
                let p = r->Ok_0;
                &&& p.key@ == key@
                &&& p.value@ == self.entries()[idx].1
                &&& p.version == self.entries()[idx].2
                &&& hashes_view(p.siblings@) == proof_path(leaf_hashes(self.entries()), idx)
                &&& p.root@ == self.spec_root()
            },
    {
        let k = copy_bytes(key);
        let pos = self.position_of(&k);
        proof {
            lemma_count_less_at(self.entries(), key@, pos as int);
        }
        if !(pos < self.nodes.len() && bytes_eq(&self.nodes[pos].key, key)) {
            return Err(ConsensusError::StateError("Key not found".to_owned()));
        }
        let mut level = self.leaf_level();
        let mut idx: usize = pos;
        let mut siblings: Vec<Vec<u8>> = Vec::new();
        let ghost start = hashes_view(level@);
        while level.len() > 1
            invariant
                idx < level@.len(),
                hashes_view(siblings@) + proof_path(hashes_view(level@), idx as int)
                    == proof_path(start, pos as int),
            decreases level@.len(),
        {
            let ghost lv = hashes_view(level@);
            let sib = if idx % 2 == 0 {
                if idx + 1 < level.len() {
                    copy_bytes(&level[idx + 1])
                } else {
                    copy_bytes(&level[idx])
                }
            } else {
                copy_bytes(&level[idx - 1])
            };
            let ghost sv = hashes_view(siblings@);
            siblings.push(sib);
            assert(hashes_view(siblings@) =~= sv + seq![sib@]);
            let ghost nidx = (idx / 2) as int;
            level = next_level_of(&level);
            assert(proof_path(lv, idx as int) == seq![sib@] + proof_path(next_level(lv), nidx));
            assert(hashes_view(siblings@) + proof_path(next_level(lv), nidx) =~= sv + (seq![sib@]
                + proof_path(next_level(lv), nidx)));
            idx = idx / 2;
        }
        assert(hashes_view(siblings@) + proof_path(hashes_view(level@), idx as int) =~= hashes_view(
            siblings@,
        ));
        let node = &self.nodes[pos];
        Ok(
            MerkleProof {
                key: copy_bytes(key),
                value: copy_bytes(&node.value),
                version: node.version,
                siblings,
                root: copy_bytes(&self.root),
            },
        )
    }

    /// Folds the proof's siblings into the hash of its key, value and version
    /// (left-then-right when the key sorts before the sibling) and compares
    /// the outcome with the proof's root. The order the key gives need not
    /// be the order of the positions in the tree, and then a proof made by
    /// `create_proof` does not verify: in the tree `a`=[1], `b`=[2], `c`=[3]
    /// the first sibling of `b` is the hash of `a`, which sorts after `b`
    /// though `a` stands to its left, so the proof of `b` gives `false`.
    /// Where the two orders agree it gives `true` (see
    /// `lemma_proof_round_trip`).
    pub fn verify_proof(&self, proof: &MerkleProof) -> (r: Result<bool, ConsensusError>)
        ensures
            r == Ok::<bool, ConsensusError>(
                fold_proof(
                    leaf_hash(proof.key@, proof.value@, proof.version),
                    proof.key@,
                    hashes_view(proof.siblings@),
                ) == proof.root@,
            ),
    {
        let mut buf = copy_bytes(&proof.key);
        push_all(&mut buf, &proof.value);
        push_le_bytes(&mut buf, proof.version, 8);
        assert(buf@ =~= proof.key@ + proof.value@ + crate::bytes::le_bytes(proof.version as nat, 8));
        let mut current = sha256(&buf);
        let ghost sibs = hashes_view(proof.siblings@);
        assert(sibs.skip(0) =~= sibs);
        let mut i: usize = 0;
        while i < proof.siblings.len()
            invariant
                0 <= i <= proof.siblings@.len(),
                sibs == hashes_view(proof.siblings@),
                fold_proof(current@, proof.key@, sibs.skip(i as int)) == fold_proof(
                    leaf_hash(proof.key@, proof.value@, proof.version),
                    proof.key@,
                    sibs,
                ),
            decreases proof.siblings@.len() - i,
        {
            let sib = &proof.siblings[i];
            let next = if bytes_lt(&proof.key, sib) {
                hash_pair(&current, sib)
            } else {
                hash_pair(sib, &current)
            };
            assert(sibs.skip(i as int).drop_first() =~= sibs.skip(i + 1));
            current = next;
            i = i + 1;
        }
        assert(sibs.skip(i as int) =~= Seq::<Seq<u8>>::empty());
        Ok(bytes_eq(&current, &proof.root))
    }
}

/// Folds `siblings` into `current`, each pair ordered by its two hashes:
/// the smaller one first.
pub open spec fn fold_sorted(current: Seq<u8>, siblings: Seq<Seq<u8>>) -> Seq<u8>
    decreases siblings.len(),
{
    if siblings.len() == 0 {
        current
    } else {
        let next = if lex_lt(current, siblings[0]) {
            pair_hash(current, siblings[0])
        } else {
            pair_hash(siblings[0], current)
        };
        fold_sorted(next, siblings.drop_first())
    }
}

/// Checks a sorted-pair inclusion proof: the hash of `leaf`, folded with
/// `proof` (see `fold_sorted`), must be `root`.
pub fn verify_merkle_proof(root: &[u8], leaf: &[u8], proof: &Vec<Vec<u8>>) -> (r: bool)
    ensures
        r == (fold_sorted(sha256_of(leaf@), hashes_view(proof@)) == root@),
{
    let mut current = sha256(leaf);
    let ghost sibs = hashes_view(proof@);
    assert(sibs.skip(0) =~= sibs);
    let mut i: usize = 0;
    while i < proof.len()
        invariant
            0 <= i <= proof@.len(),
            sibs == hashes_view(proof@),
            fold_sorted(current@, sibs.skip(i as int)) == fold_sorted(sha256_of(leaf@), sibs),
        decreases proof@.len() - i,
    {
        let sib = &proof[i];
        let next = if bytes_lt(&current, sib) {
            hash_pair(&current, sib)
        } else {
            hash_pair(sib, &current)
        };
        assert(sibs.skip(i as int).drop_first() =~= sibs.skip(i + 1));
        current = next;
        i = i + 1;
    }
    assert(sibs.skip(i as int) =~= Seq::<Seq<u8>>::empty());
    bytes_eq(&current, root)
}

/// `SHA256(left || right)`.
pub fn hash_pair(left: &[u8], right: &[u8]) -> (r: Vec<u8>)
    ensures
        r@ == pair_hash(left@, right@),
{
    let mut buf = copy_bytes(left);
    push_all(&mut buf, right);
    sha256(&buf)
}

/// The level above `level`.
fn next_level_of(level: &Vec<Vec<u8>>) -> (r: Vec<Vec<u8>>)
    requires
        level@.len() > 1,
    ensures
        hashes_view(r@) == next_level(hashes_view(level@)),
        r@.len() < level@.len(),
        r@.len() > 0,
{
    let ghost lv = hashes_view(level@);
    let mut r: Vec<Vec<u8>> = Vec::new();
    let n = level.len();
    let half = n / 2 + n % 2;
    let mut j: usize = 0;
    while j < half
        invariant
            lv == hashes_view(level@),
            n == level@.len(),
            half == (n + 1) / 2,
            j <= half,
            r@.len() == j,
            forall|k: int| 0 <= k < r@.len() ==> (#[trigger] r@[k])@ == next_level(lv)[k],
        decreases half - j,
    {
        let i = 2 * j;
        let h = if i + 1 < level.len() {
            hash_pair(&level[i], &level[i + 1])
        } else {
            hash_pair(&level[i], &level[i])
        };
        r.push(h);
        j = j + 1;
    }
    assert(hashes_view(r@) =~= next_level(lv));
    r
}

/// The root of a non-empty level.
pub(crate) fn root_of_level(leaves: Vec<Vec<u8>>) -> (r: Vec<u8>)
    requires
        leaves@.len() > 0,
    ensures
        r@ == reduce_root(hashes_view(leaves@)),
{
    let ghost start = hashes_view(leaves@);
    let mut level = leaves;
    while level.len() > 1
        invariant
            level@.len() > 0,
            reduce_root(hashes_view(level@)) == reduce_root(start),
        decreases level@.len(),
    {
        level = next_level_of(&level);
    }
    copy_bytes(&level[0])
}

/// In a sorted sequence, a position with every key before it below `key` and
/// none from it on is `count_less`.
proof fn lemma_count_less_at(es: Seq<Entry>, key: Seq<u8>, pos: int)
    requires
        0 <= pos <= es.len(),
        forall|j: int| 0 <= j < pos ==> lex_lt(#[trigger] es[j].0, key),
        forall|j: int| pos <= j < es.len() ==> !lex_lt(#[trigger] es[j].0, key),
    ensures
        count_less(es, key) == pos,
    decreases es.len(),
{
    if es.len() > 0 {
        let init = es.drop_last();
        if pos == es.len() {
            assert forall|j: int| 0 <= j < pos - 1 implies lex_lt(#[trigger] init[j].0, key) by {
                assert(init[j] == es[j]);
            }
            lemma_count_less_at(init, key, pos - 1);
        } else {
            assert forall|j: int| 0 <= j < pos implies lex_lt(#[trigger] init[j].0, key) by {
                assert(init[j] == es[j]);
            }
            assert forall|j: int| pos <= j < init.len() implies !lex_lt(#[trigger] init[j].0, key) by {
                assert(init[j] == es[j]);
            }
            lemma_count_less_at(init, key, pos);
        }
    }
}

/// Writing a key keeps the entries sorted.
proof fn lemma_upsert_sorted_pair(es: Seq<Entry>, key: Seq<u8>, value: Seq<u8>, version: u64, i: int, j: int)
    requires
        keys_sorted(es),
        count_less(es, key) <= es.len(),
        forall|k: int| 0 <= k < count_less(es, key) ==> lex_lt(#[trigger] es[k].0, key),
        forall|k: int| count_less(es, key) <= k < es.len() ==> !lex_lt(#[trigger] es[k].0, key),
        0 <= i < j < upsert(es, key, value, version).len(),
    ensures
        lex_lt(upsert(es, key, value, version)[i].0, upsert(es, key, value, version)[j].0),
{
    let pos = count_less(es, key) as int;
    let ne = upsert(es, key, value, version);
    if has_key(es, key) {
        if i == pos {
            assert(lex_lt(es[pos].0, es[j].0));
        } else if j == pos {
            assert(lex_lt(es[i].0, es[pos].0));
        } else {
            assert(lex_lt(es[i].0, es[j].0));
        }
    } else {
        if i < pos && j == pos {
        } else if i == pos {
            lemma_lex_lt_total(es[j - 1].0, key);
        } else if i < pos && j > pos {
            assert(lex_lt(es[i].0, es[j - 1].0));
        } else if i > pos {
            assert(lex_lt(es[i - 1].0, es[j - 1].0));
        } else {
            assert(lex_lt(es[i].0, es[j].0));
        }
    }
}

/// The root of a well-formed tree is the balanced reduction of the node
/// hashes in key order (32 zero bytes when empty), and every node's hash is
/// `SHA256(key || value || LE64(version))` of its entry.
pub proof fn lemma_root_is_tree_root(tree: MerkleTree)
    requires
        tree.wf(),
    ensures
        tree.spec_root() == tree_root(leaf_hashes(tree.entries())),
{
}

/// The entries and version of a tree that started empty and then applied
/// `ops`, in order, each a `(key, value)` update.
pub open spec fn replay(ops: Seq<(Seq<u8>, Seq<u8>)>) -> (Seq<Entry>, u64)
    decreases ops.len(),
{
    if ops.len() == 0 {
        (seq![], 0)
    } else {
        let before = replay(ops.drop_last());
        let version = (before.1 + 1) as u64;
        (upsert(before.0, ops.last().0, ops.last().1, version), version)
    }
}

/// Determinism of the state tree: two trees that applied the same sequence
/// of updates hold the same entries, and so have the same version and,
/// bit for bit, the same root.
pub proof fn lemma_merkle_determinism(a: MerkleTree, b: MerkleTree, ops: Seq<(Seq<u8>, Seq<u8>)>)
    requires
        a.wf(),
        b.wf(),
        (a.entries(), a.spec_version()) == replay(ops),
        (b.entries(), b.spec_version()) == replay(ops),
    ensures
        a.spec_root() == b.spec_root(),
        a.spec_version() == b.spec_version(),
{
}

/// Folding the path of position `idx` into the hash held there gives the
/// root of the level, when the key orders every pair as the positions do.
proof fn lemma_fold_path(level: Seq<Seq<u8>>, idx: int, key: Seq<u8>)
    requires
        0 <= idx < level.len(),
        order_agrees(level, idx, key),
    ensures
        fold_proof(level[idx], key, proof_path(level, idx)) == reduce_root(level),
    decreases level.len(),
{
    if level.len() > 1 {
        let up = next_level(level);
        let path = proof_path(level, idx);
        let rest = proof_path(up, idx / 2);
        assert(path.drop_first() =~= rest);
        assert(fold_proof(level[idx], key, path) == fold_proof(up[idx / 2], key, rest));
        lemma_fold_path(up, idx / 2, key);
    }
}

/// Round trip of inclusion proofs: for a stored key, folding the proof that
/// `create_proof` builds from the hash of its key, value and version (as
/// `verify_proof` does) yields the tree's root, whenever the key orders each
/// pair on its path as the positions do.
pub proof fn lemma_proof_round_trip(tree: MerkleTree, key: Seq<u8>)
    requires
        tree.wf(),
        has_key(tree.entries(), key),
        order_agrees(leaf_hashes(tree.entries()), count_less(tree.entries(), key) as int, key),
    ensures
        ({
            let idx = count_less(tree.entries(), key) as int;
            let e = tree.entries()[idx];
            fold_proof(leaf_hash(key, e.1, e.2), key, proof_path(leaf_hashes(tree.entries()), idx))
                == tree.spec_root()
        }),
{
    let idx = count_less(tree.entries(), key) as int;
    lemma_fold_path(leaf_hashes(tree.entries()), idx, key);
}

} // verus!
