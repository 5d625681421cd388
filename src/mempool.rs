//! Transactions and the bounded, fee-prioritised pool that feeds block
//! proposals.
use vstd::prelude::*;

use crate::bytes::copy_bytes;

verus! {

/// A transfer between two accounts, with a fee that sets its priority.
/// The timestamp is in milliseconds since the Unix epoch.
#[derive(Debug)]
pub struct Transaction {
    pub id: Vec<u8>,
    pub sender: Vec<u8>,
    pub receiver: Vec<u8>,
    pub amount: u64,
    pub fee: u64,
    pub timestamp: i64,
    pub signature: Vec<u8>,
}

/// What a transaction holds, as plain values.
pub struct TransactionView {
    pub id: Seq<u8>,
    pub sender: Seq<u8>,
    pub receiver: Seq<u8>,
    pub amount: u64,
    pub fee: u64,
    pub timestamp: i64,
    pub signature: Seq<u8>,
}

impl View for Transaction {
    type V = TransactionView;

    open spec fn view(&self) -> TransactionView {
        TransactionView {
            id: self.id@,
            sender: self.sender@,
            receiver: self.receiver@,
            amount: self.amount,
            fee: self.fee,
            timestamp: self.timestamp,
            signature: self.signature@,
        }
    }
}

impl Transaction {
    /// A copy of the transaction.
    pub fn duplicate(&self) -> (r: Transaction)
        ensures
            r@ == self@,
    {
        Transaction {
            id: copy_bytes(&self.id),
            sender: copy_bytes(&self.sender),
            receiver: copy_bytes(&self.receiver),
            amount: self.amount,
            fee: self.fee,
            timestamp: self.timestamp,
            signature: copy_bytes(&self.signature),
        }
    }
}

/// The views of a vector of transactions.
pub open spec fn tx_views(txs: Seq<Transaction>) -> Seq<TransactionView> {
    Seq::new(txs.len(), |i: int| txs[i]@)
}

/// A transaction with the priority it is held under.
#[derive(Debug)]
pub struct TransactionWithPriority {
    pub transaction: Transaction,
    pub priority: u64,
}

/// The pool: transactions with their priorities, at most `max_size` of
/// them.
#[derive(Debug)]
pub struct Mempool {
    transactions: Vec<TransactionWithPriority>,
    max_size: usize,
}

/// A held transaction and its priority.
pub type PoolEntry = (TransactionView, u64);

/// `i` is the first position of least priority.
pub open spec fn is_min_index(s: Seq<PoolEntry>, i: int) -> bool {
    &&& 0 <= i < s.len()
    &&& forall|j: int| 0 <= j < s.len() ==> s[i].1 <= (#[trigger] s[j]).1
    &&& forall|j: int| 0 <= j < i ==> s[i].1 < (#[trigger] s[j]).1
}

/// The first position of least priority.
pub open spec fn min_index(s: Seq<PoolEntry>) -> int {
    choose|i: int| is_min_index(s, i)
}

/// The pool after adding `e` to `s` with capacity `max_size`: a pool of
/// capacity zero takes nothing; when full, the first entry of least
/// priority leaves first, whatever the newcomer's priority, and then `e` is
/// appended.
pub open spec fn add_entry(s: Seq<PoolEntry>, max_size: nat, e: PoolEntry) -> Seq<PoolEntry> {
    if max_size == 0 {
        s
    } else if s.len() >= max_size {
        s.remove(min_index(s)).push(e)
    } else {
        s.push(e)
    }
}

proof fn lemma_min_index_unique(s: Seq<PoolEntry>, i: int)
    requires
        is_min_index(s, i),
    ensures
        min_index(s) == i,
{
    let k = min_index(s);
    assert(is_min_index(s, k));
    if k < i {
        assert(s[i].1 < s[k].1);
    } else if i < k {
        assert(s[k].1 < s[i].1);
    }
}

impl Mempool {
    /// The held transactions with their priorities, in held order.
    pub closed spec fn entries(&self) -> Seq<PoolEntry> {
        Seq::new(self.transactions@.len(), |i: int| (self.transactions@[i].transaction@, self.transactions@[i].priority))
    }

    pub closed spec fn capacity(&self) -> nat {
        self.max_size as nat
    }

    /// The bound: never more than `max_size` entries.
    pub open spec fn wf(&self) -> bool {
        self.entries().len() <= self.capacity()
    }

    /// An empty pool holding at most `max_size` transactions.
    pub fn new(max_size: usize) -> (r: Mempool)
        ensures
            r.wf(),
            r.entries().len() == 0,
            r.capacity() == max_size,
    {
        let r = Mempool { transactions: Vec::new(), max_size };
        assert(r.entries() =~= Seq::<PoolEntry>::empty());
        r
    }

    /// Adds a transaction under `priority`; a pool of capacity zero takes
    /// nothing. When the pool is full, the first
    /// transaction of least priority is evicted before the new one is
    /// pushed, without comparing the two.
    pub fn add_transaction(&mut self, transaction: Transaction, priority: u64)
        requires
            old(self).wf(),
        ensures
            final(self).wf(),
            final(self).capacity() == old(self).capacity(),
            final(self).entries() == add_entry(old(self).entries(), old(self).capacity(), (transaction@, priority)),
    {
        let ghost before = self.entries();
        let ghost e = (transaction@, priority);
        if self.max_size == 0 {
            return;
        }
        if self.transactions.len() >= self.max_size {
            let m = self.min_position();
            proof {
                lemma_min_index_unique(before, m as int);
            }
            self.transactions.remove(m);
            assert(self.entries() =~= before.remove(m as int));
        }
        let ghost mid = self.entries();
        self.transactions.push(TransactionWithPriority { transaction, priority });
        assert(self.entries() =~= mid.push(e));
    }

    /// The first position of least priority in a non-empty pool.
    fn min_position(&self) -> (r: usize)
        requires
            self.entries().len() > 0,
        ensures
            is_min_index(self.entries(), r as int),
    {
        let ghost s = self.entries();
        let mut best: usize = 0;
        let mut i: usize = 1;
        while i < self.transactions.len()
            invariant
                s == self.entries(),
                1 <= i <= s.len(),
                best < i,
                forall|j: int| 0 <= j < i ==> s[best as int].1 <= (#[trigger] s[j]).1,
                forall|j: int| 0 <= j < best ==> s[best as int].1 < (#[trigger] s[j]).1,
            decreases s.len() - i,
        {
            if self.transactions[i].priority < self.transactions[best].priority {
                best = i;
            }
            i = i + 1;
        }
        best
    }

    /// Copies of the held transactions, in held order (not sorted).
    pub fn get_transactions(&self) -> (r: Vec<Transaction>)
        ensures
            tx_views(r@) == Seq::new(self.entries().len(), |i: int| self.entries()[i].0),
    {
        let mut r: Vec<Transaction> = Vec::new();
        let mut i: usize = 0;
        while i < self.transactions.len()
            invariant
                0 <= i <= self.transactions@.len(),
                r@.len() == i,
                forall|j: int| 0 <= j < i ==> (#[trigger] r@[j])@ == self.entries()[j].0,
            decreases self.transactions@.len() - i,
        {
            r.push(self.transactions[i].transaction.duplicate());
            i = i + 1;
        }
        assert(tx_views(r@) =~= Seq::new(self.entries().len(), |i: int| self.entries()[i].0));
        r
    }

    /// How many transactions are held.
    pub fn len(&self) -> (r: usize)
        ensures
            r == self.entries().len(),
    {
        self.transactions.len()
    }

    /// The capacity the pool was made with.
    pub fn max_size(&self) -> (r: usize)
        ensures
            r == self.capacity(),
    {
        self.max_size
    }
}

/// The mempool bound: a pool never holds more than `max_size`
/// transactions, whatever was added to it.
pub proof fn lemma_mempool_bound(pool: Mempool)
    requires
        pool.wf(),
    ensures
        pool.entries().len() <= pool.capacity(),
{
}

/// How many positions are still free.
pub open spec fn free_count(taken: Seq<bool>) -> nat
    decreases taken.len(),
{
    if taken.len() == 0 {
        0
    } else {
        free_count(taken.drop_last()) + if taken.last() {
            0nat
        } else {
            1nat
        }
    }
}

proof fn lemma_free_exists(taken: Seq<bool>)
    requires
        free_count(taken) > 0,
    ensures
        exists|j: int| 0 <= j < taken.len() && !taken[j],
    decreases taken.len(),
{
    if !taken.last() {
        assert(!taken[taken.len() - 1]);
    } else {
        lemma_free_exists(taken.drop_last());
        let j = choose|j: int| 0 <= j < taken.len() - 1 && !taken.drop_last()[j];
        assert(!taken[j]);
    }
}

proof fn lemma_free_take(taken: Seq<bool>, j: int)
    requires
        0 <= j < taken.len(),
        !taken[j],
    ensures
        free_count(taken.update(j, true)) + 1 == free_count(taken),
    decreases taken.len(),
{
    if j < taken.len() - 1 {
        lemma_free_take(taken.drop_last(), j);
        assert(taken.update(j, true).drop_last() =~= taken.drop_last().update(j, true));
    } else {
        assert(taken.update(j, true).drop_last() =~= taken.drop_last());
    }
}

proof fn lemma_free_all(n: nat)
    ensures
        free_count(Seq::new(n, |i: int| false)) == n,
    decreases n,
{
    if n > 0 {
        lemma_free_all((n - 1) as nat);
        assert(Seq::new(n, |i: int| false).drop_last() =~= Seq::new((n - 1) as nat, |i: int| false));
    }
}

/// `picks` are distinct positions of `s` in the order taken, and no
/// position left out has a higher priority than any position taken.
pub open spec fn top_picks(s: Seq<PoolEntry>, picks: Seq<int>) -> bool {
    &&& forall|k: int| 0 <= k < picks.len() ==> 0 <= #[trigger] picks[k] < s.len()
    &&& picks.no_duplicates()
    &&& forall|k: int, j: int|
        0 <= k < picks.len() && 0 <= j < s.len() && !picks.contains(j) ==> (#[trigger] s[j]).1 <= s[#[trigger] picks[k]].1
    &&& forall|a: int, b: int| 0 <= a < b < picks.len() ==> s[#[trigger] picks[b]].1 <= s[#[trigger] picks[a]].1
}

impl Mempool {
    /// Up to `limit` transactions in order of priority, highest first (of
    /// equal priorities, the one held first).
    pub fn top_by_priority(&self, limit: usize) -> (r: Vec<Transaction>)
        ensures
            r@.len() == if limit < self.entries().len() {
                limit as nat
            } else {
                self.entries().len()
            },
            exists|picks: Seq<int>|
                #![trigger top_picks(self.entries(), picks)]
                top_picks(self.entries(), picks) && picks.len() == r@.len() && forall|k: int|
                    0 <= k < picks.len() ==> (#[trigger] r@[k])@ == self.entries()[picks[k]].0,
    {
        let ghost s = self.entries();
        let n = self.transactions.len();
        let want = if limit < n {
            limit
        } else {
            n
        };
        let mut taken: Vec<bool> = Vec::new();
        let mut i: usize = 0;
        while i < n
            invariant
                n == s.len(),
                0 <= i <= n,
                taken@ == Seq::new(i as nat, |j: int| false),
            decreases n - i,
        {
            taken.push(false);
            i = i + 1;
            assert(taken@ =~= Seq::new(i as nat, |j: int| false));
        }
        proof {
            lemma_free_all(n as nat);
        }
        let mut r: Vec<Transaction> = Vec::new();
        let ghost mut picks: Seq<int> = seq![];
        while r.len() < want
            invariant
                s == self.entries(),
                n == s.len(),
                want <= n,
                taken@.len() == n,
                r@.len() <= want,
                picks.len() == r@.len(),
                free_count(taken@) == n - r@.len(),
                forall|j: int| 0 <= j < n ==> (taken@[j] <==> picks.contains(j)),
                top_picks(s, picks),
                forall|k: int| 0 <= k < picks.len() ==> (#[trigger] r@[k])@ == s[picks[k]].0,
            decreases want - r@.len(),
        {
            proof {
                lemma_free_exists(taken@);
            }
            let mut best: usize = n;
            let mut j: usize = 0;
            while j < n
                invariant
                    s == self.entries(),
                    n == s.len(),
                    taken@.len() == n,
                    0 <= j <= n,
                    best == n || (best < j && !taken@[best as int]),
                    best == n ==> forall|q: int| 0 <= q < j ==> taken@[q],
                    best < n ==> forall|q: int| 0 <= q < j && !taken@[q] ==> s[q].1 <= s[best as int].1,
                    best < n ==> forall|q: int| 0 <= q < best && !taken@[q] ==> s[q].1 < s[best as int].1,
                decreases n - j,
            {
                if !taken[j] && (best == n || self.transactions[j].priority > self.transactions[best].priority) {
                    best = j;
                }
                j = j + 1;
            }
            assert(best < n);
            proof {
                lemma_free_take(taken@, best as int);
            }
            let ghost old_picks = picks;
            taken.set(best, true);
            r.push(self.transactions[best].transaction.duplicate());
            proof {
                picks = picks.push(best as int);
                assert forall|q: int| 0 <= q < n implies (taken@[q] <==> picks.contains(q)) by {
                    if q == best {
                        assert(picks[picks.len() - 1] == q);
                    } else if old_picks.contains(q) {
                        let k = choose|k: int| 0 <= k < old_picks.len() && old_picks[k] == q;
                        assert(picks[k] == q);
                    } else if picks.contains(q) {
                        let k = choose|k: int| 0 <= k < picks.len() && picks[k] == q;
                        assert(k < old_picks.len() ==> old_picks[k] == q);
                    }
                }
                assert forall|a: int, b: int| 0 <= a < b < picks.len() implies picks[a] != picks[b] by {
                    if b == picks.len() - 1 {
                        assert(old_picks.contains(picks[a]));
                    } else {
                        assert(old_picks[a] != old_picks[b]);
                    }
                }
                assert forall|k: int, q: int|
                    0 <= k < picks.len() && 0 <= q < s.len() && !picks.contains(q) implies (#[trigger] s[q]).1
                        <= s[#[trigger] picks[k]].1 by {
                    assert(!old_picks.contains(q)) by {
                        if old_picks.contains(q) {
                            let m = choose|m: int| 0 <= m < old_picks.len() && old_picks[m] == q;
                            assert(picks[m] == q);
                        }
                    }
                    if k < old_picks.len() {
                        assert(old_picks[k] == picks[k]);
                    } else {
                        assert(!taken@[q] || q == best);
                    }
                }
                assert forall|a: int, b: int| 0 <= a < b < picks.len() implies s[#[trigger] picks[b]].1
                    <= s[#[trigger] picks[a]].1 by {
                    if b == picks.len() - 1 {
                        assert(old_picks[a] == picks[a]);
                        assert(!old_picks.contains(best as int));
                    } else {
                        assert(old_picks[a] == picks[a] && old_picks[b] == picks[b]);
                    }
                }
            }
        }
        r
    }
}

} // verus!
