//! The simpler vote-count policy: a block is finalized once it has
//! gathered `threshold` votes.
use vstd::prelude::*;

verus! {

/// A vote of `validator` for `block_hash`.
#[derive(Debug)]
pub struct Vote {
    pub block_hash: String,
    pub validator: String,
}

/// The votes gathered for one block.
#[derive(Debug)]
pub struct BlockVotes {
    pub block_hash: String,
    pub votes: Vec<Vote>,
}

/// Votes by block, in order of each block's first vote, and the finalized
/// blocks in order of finalization.
#[derive(Debug)]
pub struct ConsensusState {
    pub votes: Vec<BlockVotes>,
    pub finalized_blocks: Vec<String>,
}

/// The vote-count policy over a list of validators.
#[derive(Debug)]
pub struct SVBFTConsensus {
    pub state: ConsensusState,
    pub validators: Vec<String>,
    pub threshold: usize,
}

impl SVBFTConsensus {
    /// The blocks that have votes.
    pub open spec fn voted_blocks(&self) -> Seq<Seq<char>> {
        Seq::new(self.state.votes@.len(), |i: int| self.state.votes@[i].block_hash@)
    }

    /// The finalized blocks.
    pub open spec fn finalized(&self) -> Seq<Seq<char>> {
        Seq::new(self.state.finalized_blocks@.len(), |i: int| self.state.finalized_blocks@[i]@)
    }

    /// The position of `hash` among the voted blocks, when it is there.
    pub open spec fn block_index(&self, hash: Seq<char>) -> int {
        choose|i: int| 0 <= i < self.voted_blocks().len() && self.voted_blocks()[i] == hash
    }

    /// The number of votes for `hash`.
    pub open spec fn count_of(&self, hash: Seq<char>) -> nat {
        if self.voted_blocks().contains(hash) {
            self.state.votes@[self.block_index(hash)].votes@.len()
        } else {
            0
        }
    }

    /// Each block appears once among the voted blocks.
    pub open spec fn wf(&self) -> bool {
        self.voted_blocks().no_duplicates()
    }

    /// No votes and nothing finalized.
    pub fn new(validators: Vec<String>, threshold: usize) -> (r: SVBFTConsensus)
        ensures
            r.wf(),
            r.voted_blocks().len() == 0,
            r.finalized().len() == 0,
            r.threshold == threshold,
    {
        let r = SVBFTConsensus {
            state: ConsensusState { votes: Vec::new(), finalized_blocks: Vec::new() },
            validators,
            threshold,
        };
        assert(r.voted_blocks() =~= Seq::<Seq<char>>::empty());
        assert(r.finalized() =~= Seq::<Seq<char>>::empty());
        r
    }

    /// The position of `hash` among the voted blocks.
    fn position(&self, hash: &String) -> (r: Option<usize>)
        requires
            self.wf(),
        ensures
            r is Some <==> self.voted_blocks().contains(hash@),
            r is Some ==> r->Some_0 == self.block_index(hash@) && r->Some_0
                < self.state.votes@.len(),
    {
        let mut i: usize = 0;
        while i < self.state.votes.len()
            invariant
                self.wf(),
                0 <= i <= self.state.votes@.len(),
                forall|k: int| 0 <= k < i ==> (#[trigger] self.voted_blocks()[k]) != hash@,
            decreases self.state.votes@.len() - i,
        {
            if self.state.votes[i].block_hash == *hash {
                assert(self.voted_blocks()[i as int] == hash@);
                proof {
                    assert(self.voted_blocks().contains(hash@));
                    lemma_unique_position(self.voted_blocks(), hash@, i as int);
                }
                return Some(i);
            }
            i = i + 1;
        }
        proof {
            if self.voted_blocks().contains(hash@) {
                let j = choose|j: int| 0 <= j < self.voted_blocks().len() && self.voted_blocks()[j] == hash@;
                assert(self.voted_blocks()[j] != hash@);
            }
        }
        None
    }

    /// Records a vote; returns `true` exactly when this vote brings its
    /// block to `threshold` votes or more and the block was not finalized
    /// yet, which finalizes it.
    pub fn add_vote(&mut self, vote: Vote) -> (r: bool)
        requires
            old(self).wf(),
        ensures
            final(self).wf(),
            final(self).threshold == old(self).threshold,
            final(self).count_of(vote.block_hash@) == old(self).count_of(vote.block_hash@) + 1,
            forall|h: Seq<char>| h != vote.block_hash@ ==> final(self).count_of(h) == old(self).count_of(h),
            r == (old(self).count_of(vote.block_hash@) + 1 >= old(self).threshold && !old(self).finalized().contains(
                vote.block_hash@,
            )),
            final(self).finalized() == if r {
                old(self).finalized().push(vote.block_hash@)
            } else {
                old(self).finalized()
            },
    {
        let ghost blocks = self.voted_blocks();
        let hash = vote.block_hash.clone();
        let idx = match self.position(&hash) {
            Some(i) => i,
            None => {
                self.state.votes.push(BlockVotes { block_hash: hash.clone(), votes: Vec::new() });
                assert(self.voted_blocks() =~= blocks.push(hash@));
                proof {
                    assert(self.voted_blocks()[blocks.len() as int] == hash@);
                    assert(self.voted_blocks().no_duplicates()) by {
                        assert forall|a: int, b: int|
                            0 <= a < self.voted_blocks().len() && 0 <= b < self.voted_blocks().len() && a != b implies self.voted_blocks()[a]
                                != self.voted_blocks()[b] by {
                            if a < blocks.len() && b < blocks.len() {
                            } else if a < blocks.len() {
                                assert(blocks[a] == self.voted_blocks()[a]);
                                if blocks[a] == hash@ {
                                    assert(blocks.contains(hash@));
                                }
                            } else {
                                assert(blocks[b] == self.voted_blocks()[b]);
                                if blocks[b] == hash@ {
                                    assert(blocks.contains(hash@));
                                }
                            }
                        }
                    }
                    lemma_unique_position(self.voted_blocks(), hash@, blocks.len() as int);
                }
                self.state.votes.len() - 1
            },
        };
        let ghost mid = self.voted_blocks();
        let mut entry = BlockVotes { block_hash: String::new(), votes: Vec::new() };
        core::mem::swap(&mut entry, &mut self.state.votes[idx]);
        entry.votes.push(vote);
        let count = entry.votes.len();
        core::mem::swap(&mut entry, &mut self.state.votes[idx]);
        assert(self.voted_blocks() =~= mid);
        proof {
            assert forall|h: Seq<char>| h != hash@ implies self.count_of(h) == old(self).count_of(h) by {
                if blocks.contains(h) {
                    let j = choose|j: int| 0 <= j < blocks.len() && blocks[j] == h;
                    lemma_unique_position(blocks, h, j);
                    assert(mid[j] == h);
                    lemma_unique_position(mid, h, j);
                } else if mid.contains(h) {
                    let k = choose|k: int| 0 <= k < mid.len() && mid[k] == h;
                    if k < blocks.len() {
                        assert(blocks[k] == h);
                    }
                }
            }
        }
        if count >= self.threshold && !self.is_finalized(&hash) {
            let ghost fin = self.finalized();
            self.state.finalized_blocks.push(hash);
            assert(self.finalized() =~= fin.push(vote.block_hash@));
            return true;
        }
        false
    }

    /// Whether the block is finalized.
    pub fn is_finalized(&self, block_hash: &String) -> (r: bool)
        ensures
            r == self.finalized().contains(block_hash@),
    {
        let mut i: usize = 0;
        while i < self.state.finalized_blocks.len()
            invariant
                0 <= i <= self.state.finalized_blocks@.len(),
                forall|k: int| 0 <= k < i ==> (#[trigger] self.finalized()[k]) != block_hash@,
            decreases self.state.finalized_blocks@.len() - i,
        {
            if self.state.finalized_blocks[i] == *block_hash {
                assert(self.finalized()[i as int] == block_hash@);
                return true;
            }
            i = i + 1;
        }
        proof {
            if self.finalized().contains(block_hash@) {
                let j = choose|j: int| 0 <= j < self.finalized().len() && self.finalized()[j] == block_hash@;
                assert(self.finalized()[j] != block_hash@);
            }
        }
        false
    }

    /// The number of votes for the block.
    pub fn get_vote_count(&self, block_hash: &String) -> (r: usize)
        requires
            self.wf(),
        ensures
            r == self.count_of(block_hash@),
    {
        match self.position(block_hash) {
            Some(i) => self.state.votes[i].votes.len(),
            None => 0,
        }
    }

    /// How many blocks are finalized.
    pub fn get_finalized_blocks_count(&self) -> (r: usize)
        ensures
            r == self.finalized().len(),
    {
        self.state.finalized_blocks.len()
    }

    /// How many blocks have votes.
    pub fn get_pending_votes_count(&self) -> (r: usize)
        ensures
            r == self.voted_blocks().len(),
    {
        self.state.votes.len()
    }

    /// Votes for `block_hash`; fails unless this vote finalizes the block.
    pub fn vote(&mut self, block_hash: String, voter_id: String) -> (r: Result<(), String>)
        requires
            old(self).wf(),
        ensures
            final(self).wf(),
            r is Ok == (old(self).count_of(block_hash@) + 1 >= old(self).threshold && !old(
                self,
            ).finalized().contains(block_hash@)),
            final(self).threshold == old(self).threshold,
            final(self).count_of(block_hash@) == old(self).count_of(block_hash@) + 1,
            forall|h: Seq<char>| h != block_hash@ ==> final(self).count_of(h) == old(self).count_of(h),
            final(self).finalized() == if r is Ok {
                old(self).finalized().push(block_hash@)
            } else {
                old(self).finalized()
            },
    {
        if self.add_vote(Vote { block_hash, validator: voter_id }) {
            Ok(())
        } else {
            Err("Not enough votes to finalize block".to_owned())
        }
    }

    /// Succeeds exactly when the block is finalized.
    pub fn finalize_block(&self, block_hash: &String) -> (r: Result<(), String>)
        ensures
            r is Ok == self.finalized().contains(block_hash@),
    {
        if self.is_finalized(block_hash) {
            Ok(())
        } else {
            Err("Block not finalized".to_owned())
        }
    }
}

/// In a sequence without duplicates, the chosen position of an element is
/// its only one.
proof fn lemma_unique_position(s: Seq<Seq<char>>, x: Seq<char>, i: int)
    requires
        s.no_duplicates(),
        0 <= i < s.len(),
        s[i] == x,
    ensures
        s.contains(x),
        (choose|j: int| 0 <= j < s.len() && s[j] == x) == i,
{
    assert(s.contains(x));
    let j = choose|j: int| 0 <= j < s.len() && s[j] == x;
    assert(s[j] == x);
}

} // verus!
