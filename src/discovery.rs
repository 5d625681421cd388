//! Peer identifiers and the XOR metric of the peer table.
use vstd::prelude::*;
use vstd::std_specs::bits::{axiom_u8_leading_zeros, u8_leading_zeros};

verus! {

/// Why peer discovery failed.
#[derive(Debug)]
pub enum DiscoveryError {
    DHTError(String),
    PeerError(String),
    NetworkError(String),
}

/// A 32-byte peer identifier.
#[derive(Debug, Clone, Copy)]
pub struct NodeId(pub [u8; 32]);

/// The number of leading bits that `a` and `b` share: 8 for each equal
/// leading byte, then the leading zeros of the first differing byte's XOR.
pub open spec fn shared_prefix_bits(a: Seq<u8>, b: Seq<u8>) -> nat
    decreases a.len(),
{
    if a.len() == 0 || b.len() == 0 {
        0
    } else if a[0] == b[0] {
        8 + shared_prefix_bits(a.drop_first(), b.drop_first())
    } else {
        u8_leading_zeros(a[0] ^ b[0]) as nat
    }
}

impl NodeId {
    /// The length of the common bit prefix of the two identifiers.
    pub fn distance(&self, other: &NodeId) -> (r: u32)
        ensures
            r == shared_prefix_bits(self.0@, other.0@),
    {
        let a = &self.0;
        let b = &other.0;
        let mut distance: u32 = 0;
        let mut i: usize = 0;
        assert(a@.skip(0) =~= a@);
        assert(b@.skip(0) =~= b@);
        while i < 32
            invariant
                0 <= i <= 32,
                a@ == self.0@,
                b@ == other.0@,
                a@.len() == 32,
                b@.len() == 32,
                distance == 8 * i,
                shared_prefix_bits(a@, b@) == distance + shared_prefix_bits(a@.skip(i as int), b@.skip(i as int)),
            decreases 32 - i,
        {
            let ai = a[i];
            let bi = b[i];
            let x = ai ^ bi;
            assert(a@.skip(i as int).drop_first() =~= a@.skip(i + 1));
            assert(b@.skip(i as int).drop_first() =~= b@.skip(i + 1));
            assert(a@.skip(i as int)[0] == a@[i as int]);
            assert(b@.skip(i as int)[0] == b@[i as int]);
            if x == 0 {
                assert(ai == bi) by (bit_vector)
                    requires
                        x == ai ^ bi,
                        x == 0,
                ;
                distance = distance + 8;
            } else {
                assert(ai != bi) by (bit_vector)
                    requires
                        x == ai ^ bi,
                        x != 0,
                ;
                proof {
                    axiom_u8_leading_zeros(x);
                    assert(ai == a@[i as int] && bi == b@[i as int]);
                    assert(shared_prefix_bits(a@.skip(i as int), b@.skip(i as int)) == u8_leading_zeros(x) as nat);
                }
                return distance + x.leading_zeros();
            }
            i = i + 1;
        }
        assert(a@.skip(32) =~= Seq::<u8>::empty());
        distance
    }
}

} // verus!
