//! The limits the transport applies per peer to consensus messages: a
//! message rate and a bandwidth cap over a one-second tumbling window, and
//! the retry schedule for failed broadcasts.
use vstd::prelude::*;

use crate::bytes::{bytes_eq, copy_bytes};
use crate::error::ConsensusError;

verus! {

/// Messages sent to a peer in the current window, when the window began
/// (milliseconds since the Unix epoch) and how many a window allows.
#[derive(Debug, Clone, Copy)]
pub struct RateLimit {
    pub messages_sent: usize,
    pub last_reset: i64,
    pub limit: usize,
}

/// Bytes sent to and received from a peer in the current window, when the
/// window began and how many bytes a window allows to be sent.
#[derive(Debug, Clone, Copy)]
pub struct BandwidthLimit {
    pub bytes_sent: usize,
    pub bytes_received: usize,
    pub last_reset: i64,
    pub limit: usize,
}

/// The length of a window, in milliseconds.
pub const WINDOW_MS: i64 = 1000;

/// Messages a peer may be sent per window.
pub const MESSAGES_PER_WINDOW: usize = 100;

/// Bytes a peer may be sent per window.
pub const BYTES_PER_WINDOW: usize = 1_000_000;

/// Whether the window that began at `last_reset` is over at `now`.
pub open spec fn window_over(last_reset: i64, now: i64) -> bool {
    now - last_reset > WINDOW_MS
}

fn window_elapsed(last_reset: i64, now: i64) -> (r: bool)
    ensures
        r == window_over(last_reset, now),
{
    now as i128 - last_reset as i128 > WINDOW_MS as i128
}

impl RateLimit {
    /// A fresh window starting at `now`, with the default allowance.
    pub fn new(now: i64) -> (r: RateLimit)
        ensures
            r == (RateLimit { messages_sent: 0, last_reset: now, limit: MESSAGES_PER_WINDOW }),
    {
        RateLimit { messages_sent: 0, last_reset: now, limit: MESSAGES_PER_WINDOW }
    }

    /// Counts one message at `now`: a window that is over first starts
    /// again at `now`; the message is allowed, and counted, while fewer than
    /// `limit` were sent in the window.
    pub fn check(&mut self, now: i64) -> (r: bool)
        ensures
            ({
                let sent = if window_over(old(self).last_reset, now) {
                    0
                } else {
                    old(self).messages_sent
                };
                let start = if window_over(old(self).last_reset, now) {
                    now
                } else {
                    old(self).last_reset
                };
                &&& r == (sent < old(self).limit)
                &&& final(self).last_reset == start
                &&& final(self).limit == old(self).limit
                &&& final(self).messages_sent == if r {
                    sent + 1
                } else {
                    sent as int
                }
            }),
            (r, *final(self)) == rate_step(*old(self), now),
    {
        if window_elapsed(self.last_reset, now) {
            self.messages_sent = 0;
            self.last_reset = now;
        }
        if self.messages_sent >= self.limit {
            return false;
        }
        self.messages_sent = self.messages_sent + 1;
        true
    }
}

impl BandwidthLimit {
    /// A fresh window starting at `now`, with the default allowance.
    pub fn new(now: i64) -> (r: BandwidthLimit)
        ensures
            r == (BandwidthLimit { bytes_sent: 0, bytes_received: 0, last_reset: now, limit: BYTES_PER_WINDOW }),
    {
        BandwidthLimit { bytes_sent: 0, bytes_received: 0, last_reset: now, limit: BYTES_PER_WINDOW }
    }

    /// Counts `size` bytes sent at `now`: a window that is over first
    /// starts again at `now` with both counters at zero; the send is allowed,
    /// and counted, when the bytes sent in the window stay within `limit`.
    /// Otherwise `NetworkError`.
    pub fn record_send(&mut self, size: usize, now: i64) -> (r: Result<(), ConsensusError>)
        ensures
            ({
                let over = window_over(old(self).last_reset, now);
                let sent = if over {
                    0
                } else {
                    old(self).bytes_sent
                };
                &&& final(self).last_reset == (if over {
                    now
                } else {
                    old(self).last_reset
                })
                &&& final(self).bytes_received == (if over {
                    0
                } else {
                    old(self).bytes_received
                })
                &&& final(self).limit == old(self).limit
                &&& sent + size > old(self).limit ==> r is Err && r->Err_0 is NetworkError && final(self).bytes_sent
                    == sent
                &&& sent + size <= old(self).limit ==> r is Ok && final(self).bytes_sent == sent + size
            }),
            (r is Ok, *final(self)) == bandwidth_step(*old(self), size, now),
    {
        if window_elapsed(self.last_reset, now) {
            self.bytes_sent = 0;
            self.bytes_received = 0;
            self.last_reset = now;
        }
        if size > self.limit || self.bytes_sent > self.limit - size {
            return Err(ConsensusError::NetworkError("Bandwidth limit exceeded".to_owned()));
        }
        self.bytes_sent = self.bytes_sent + size;
        Ok(())
    }
}

/// The limits held for one peer.
#[derive(Debug)]
pub struct PeerLimit {
    pub peer_id: Vec<u8>,
    pub rate: RateLimit,
    pub bandwidth: BandwidthLimit,
}

/// The limits of every peer seen, one entry per peer.
#[derive(Debug)]
pub struct PeerLimits {
    pub peers: Vec<PeerLimit>,
}

impl PeerLimits {
    pub open spec fn ids(&self) -> Seq<Seq<u8>> {
        Seq::new(self.peers@.len(), |i: int| self.peers@[i].peer_id@)
    }

    /// One entry per peer.
    pub open spec fn wf(&self) -> bool {
        forall|i: int, j: int|
            0 <= i < self.peers@.len() && 0 <= j < self.peers@.len() && i != j ==> (#[trigger] self.ids()[i])
                != (#[trigger] self.ids()[j])
    }

    /// No peers yet.
    pub fn new() -> (r: PeerLimits)
        ensures
            r.wf(),
            r.peers@.len() == 0,
    {
        PeerLimits { peers: Vec::new() }
    }

    /// The entry of `peer_id`, made with fresh windows at `now` when the
    /// peer is new.
    fn entry(&mut self, peer_id: &[u8], now: i64) -> (r: usize)
        requires
            old(self).wf(),
        ensures
            final(self).wf(),
            r < final(self).peers@.len(),
            final(self).ids()[r as int] == peer_id@,
            final(self).peers@.len() <= old(self).peers@.len() + 1,
            old(self).ids().contains(peer_id@) ==> *final(self) == *old(self) && old(self).peers@[r as int].peer_id@
                == peer_id@,
            !old(self).ids().contains(peer_id@) ==> final(self).peers@ == old(self).peers@.push(
                final(self).peers@[r as int],
            ) && final(self).peers@[r as int].rate == RateLimit::new_spec(now)
                && final(self).peers@[r as int].bandwidth == BandwidthLimit::new_spec(now),
    {
        let mut i: usize = 0;
        while i < self.peers.len()
            invariant
                *self == *old(self),
                self.wf(),
                0 <= i <= self.peers@.len(),
                forall|k: int| 0 <= k < i ==> (#[trigger] self.ids()[k]) != peer_id@,
            decreases self.peers@.len() - i,
        {
            if bytes_eq(&self.peers[i].peer_id, peer_id) {
                assert(self.ids()[i as int] == peer_id@);
                return i;
            }
            i = i + 1;
        }
        proof {
            if self.ids().contains(peer_id@) {
                let k = choose|k: int| 0 <= k < self.ids().len() && self.ids()[k] == peer_id@;
                assert(self.ids()[k] != peer_id@);
            }
        }
        let ghost before = self.ids();
        self.peers.push(PeerLimit { peer_id: copy_bytes(peer_id), rate: RateLimit::new(now), bandwidth: BandwidthLimit::new(now) });
        assert(self.ids() =~= before.push(peer_id@));
        proof {
            assert forall|a: int, b: int|
                0 <= a < self.peers@.len() && 0 <= b < self.peers@.len() && a != b implies (#[trigger] self.ids()[a])
                    != (#[trigger] self.ids()[b]) by {
                if a < before.len() && b < before.len() {
                    assert(before[a] != before[b]);
                } else if a < before.len() {
                    assert(before[a] != peer_id@);
                } else {
                    assert(before[b] != peer_id@);
                }
            }
        }
        i
    }

    /// Where the entry of `peer_id` stands: its position, or the end for a
    /// new peer.
    pub open spec fn slot_of(&self, peer_id: Seq<u8>) -> int {
        if self.ids().contains(peer_id) {
            choose|i: int| 0 <= i < self.ids().len() && self.ids()[i] == peer_id
        } else {
            self.peers@.len() as int
        }
    }

    /// The rate window of `peer_id`, or a fresh one at `now` for a new peer.
    pub open spec fn rate_of(&self, peer_id: Seq<u8>, now: i64) -> RateLimit {
        if self.ids().contains(peer_id) {
            self.peers@[self.slot_of(peer_id)].rate
        } else {
            RateLimit::new_spec(now)
        }
    }

    /// The bandwidth window of `peer_id`, or a fresh one at `now` for a new
    /// peer.
    pub open spec fn bandwidth_of(&self, peer_id: Seq<u8>, now: i64) -> BandwidthLimit {
        if self.ids().contains(peer_id) {
            self.peers@[self.slot_of(peer_id)].bandwidth
        } else {
            BandwidthLimit::new_spec(now)
        }
    }

    /// After counting for `peer_id`: its entry (new ones appended) holds
    /// `rate` and `bandwidth`; every other entry is as before.
    pub open spec fn updated_to(&self, before: &PeerLimits, peer_id: Seq<u8>, rate: RateLimit, bandwidth: BandwidthLimit) -> bool {
        let i = before.slot_of(peer_id);
        &&& self.peers@.len() == if before.ids().contains(peer_id) {
            before.peers@.len() as int
        } else {
            before.peers@.len() + 1int
        }
        &&& self.ids()[i] == peer_id
        &&& self.peers@[i].rate == rate
        &&& self.peers@[i].bandwidth == bandwidth
        &&& forall|j: int| 0 <= j < before.peers@.len() && j != i ==> #[trigger] self.peers@[j] == before.peers@[j]
    }

    /// Counts one message to `peer_id` at `now` (see `rate_step`); a new
    /// peer starts with a fresh window.
    pub fn check_rate_limit(&mut self, peer_id: &[u8], now: i64) -> (r: bool)
        requires
            old(self).wf(),
        ensures
            final(self).wf(),
            ({
                let (ok, rate) = rate_step(old(self).rate_of(peer_id@, now), now);
                &&& r == ok
                &&& final(self).updated_to(old(self), peer_id@, rate, old(self).bandwidth_of(peer_id@, now))
            }),
    {
        let i = self.entry(peer_id, now);
        proof {
            lemma_slot(old(self), peer_id@, i as int);
        }
        let mut rate = self.peers[i].rate;
        let r = rate.check(now);
        let ghost ids = self.ids();
        let ghost mid = self.peers@;
        let p = PeerLimit { peer_id: copy_bytes(&self.peers[i].peer_id), rate, bandwidth: self.peers[i].bandwidth };
        self.peers.set(i, p);
        assert(self.ids() =~= ids);
        assert(self.peers@ == mid.update(i as int, p));
        r
    }

    /// Counts `size` bytes sent to `peer_id` at `now` (see
    /// `bandwidth_step`); a new peer starts with a fresh window.
    pub fn record_send(&mut self, peer_id: &[u8], size: usize, now: i64) -> (r: Result<(), ConsensusError>)
        requires
            old(self).wf(),
        ensures
            final(self).wf(),
            ({
                let (ok, bandwidth) = bandwidth_step(old(self).bandwidth_of(peer_id@, now), size, now);
                &&& (r is Ok <==> ok)
                &&& r is Err ==> r->Err_0 is NetworkError
                &&& final(self).updated_to(old(self), peer_id@, old(self).rate_of(peer_id@, now), bandwidth)
            }),
    {
        let i = self.entry(peer_id, now);
        proof {
            lemma_slot(old(self), peer_id@, i as int);
        }
        let mut bandwidth = self.peers[i].bandwidth;
        let r = bandwidth.record_send(size, now);
        let ghost ids = self.ids();
        let ghost mid = self.peers@;
        let p = PeerLimit { peer_id: copy_bytes(&self.peers[i].peer_id), rate: self.peers[i].rate, bandwidth };
        self.peers.set(i, p);
        assert(self.ids() =~= ids);
        assert(self.peers@ == mid.update(i as int, p));
        r
    }
}

/// The entry found or made for a peer sits at its slot.
proof fn lemma_slot(t: &PeerLimits, peer_id: Seq<u8>, i: int)
    requires
        t.wf(),
        0 <= i <= t.peers@.len(),
        i < t.peers@.len() ==> t.ids()[i] == peer_id,
        i == t.peers@.len() ==> !t.ids().contains(peer_id),
    ensures
        t.slot_of(peer_id) == i,
{
    if i < t.peers@.len() {
        assert(t.ids().contains(peer_id));
        let k = choose|k: int| 0 <= k < t.ids().len() && t.ids()[k] == peer_id;
        assert(t.ids()[k] == peer_id);
    }
}

/// One message counted at `now` against a rate window: a window that is
/// over starts again at `now` with nothing counted; the message is allowed,
/// and counted, while fewer than `limit` were sent in the window.
pub open spec fn rate_step(p: RateLimit, now: i64) -> (bool, RateLimit) {
    let over = window_over(p.last_reset, now);
    let sent: usize = if over {
        0
    } else {
        p.messages_sent
    };
    let ok = sent < p.limit;
    (ok, RateLimit {
        messages_sent: if ok {
            (sent + 1) as usize
        } else {
            sent
        },
        last_reset: if over {
            now
        } else {
            p.last_reset
        },
        limit: p.limit,
    })
}

/// `size` bytes counted at `now` against a bandwidth window: a window that
/// is over starts again at `now` with both counters at zero; the send is
/// allowed, and counted, when the bytes sent stay within `limit`.
pub open spec fn bandwidth_step(b: BandwidthLimit, size: usize, now: i64) -> (bool, BandwidthLimit) {
    let over = window_over(b.last_reset, now);
    let sent: usize = if over {
        0
    } else {
        b.bytes_sent
    };
    let ok = sent + size <= b.limit;
    (ok, BandwidthLimit {
        bytes_sent: if ok {
            (sent + size) as usize
        } else {
            sent
        },
        bytes_received: if over {
            0
        } else {
            b.bytes_received
        },
        last_reset: if over {
            now
        } else {
            b.last_reset
        },
        limit: b.limit,
    })
}

impl RateLimit {
    pub open spec fn new_spec(now: i64) -> RateLimit {
        RateLimit { messages_sent: 0, last_reset: now, limit: MESSAGES_PER_WINDOW }
    }
}

impl BandwidthLimit {
    pub open spec fn new_spec(now: i64) -> BandwidthLimit {
        BandwidthLimit { bytes_sent: 0, bytes_received: 0, last_reset: now, limit: BYTES_PER_WINDOW }
    }
}

/// Broadcast retries: after the `failures`-th failed attempt (counting from
/// one), wait `100 * failures` milliseconds and try again, or give up at the
/// third failure.
pub open spec fn retry_delay(failures: u32) -> Option<u64> {
    if failures >= 3 {
        None
    } else {
        Some((100 * failures) as u64)
    }
}

/// The wait before the next broadcast attempt after `failures` failed ones,
/// or `None` to give up (see `retry_delay`).
pub fn backoff_after_failure(failures: u32) -> (r: Option<u64>)
    ensures
        r == retry_delay(failures),
{
    if failures >= 3 {
        None
    } else {
        Some(100 * failures as u64)
    }
}

} // verus!
