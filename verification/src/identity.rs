//! How a peer is identified: by its IP address.
//!
//! An identity is the address as a 128-bit number, most significant byte
//! first. An IPv4 address stands as the IPv6 address that it is mapped to,
//! `::ffff:a.b.c.d`, so that a peer has one identity whichever way its
//! address is written.

use vstd::prelude::*;

verus! {

/// The identity of a peer: its IP address as a 128-bit number.
pub type SessionIdentity = u128;

/// The local host, 127.0.0.1, as an identity.
pub const LOCALHOST: SessionIdentity = 281472812449793;

/// The identity of the IPv4 address 0.0.0.0: the prefix that marks an IPv4
/// address among the IPv6 addresses.
pub const IPV4_PREFIX: SessionIdentity = 281470681743360;

/// The number that the bytes read as, most significant byte first.
pub open spec fn big_endian(bytes: Seq<u8>) -> nat
    decreases bytes.len(),
{
    if bytes.len() == 0 {
        0
    } else {
        big_endian(bytes.drop_last()) * 256 + bytes.last() as nat
    }
}

/// 256 to the power of `n`.
pub open spec fn power_of_256(n: nat) -> nat
    decreases n,
{
    if n == 0 {
        1
    } else {
        256 * power_of_256((n - 1) as nat)
    }
}

/// The number that `n` bytes read as is below 256 to the power of `n`.
pub proof fn lemma_big_endian_bound(bytes: Seq<u8>)
    ensures
        big_endian(bytes) < power_of_256(bytes.len()),
    decreases bytes.len(),
{
    if bytes.len() > 0 {
        lemma_big_endian_bound(bytes.drop_last());
    }
}

/// Different bytes of the same length read as different numbers.
pub proof fn lemma_big_endian_injective(left: Seq<u8>, right: Seq<u8>)
    requires
        left.len() == right.len(),
        big_endian(left) == big_endian(right),
    ensures
        left == right,
    decreases left.len(),
{
    if left.len() > 0 {
        lemma_big_endian_injective(left.drop_last(), right.drop_last());
        assert(left =~= left.drop_last().push(left.last()));
        assert(right =~= right.drop_last().push(right.last()));
    } else {
        assert(left =~= right);
    }
}

/// The identity of the IPv6 address with the given bytes.
pub fn identity_of_ipv6(octets: &[u8; 16]) -> (identity: SessionIdentity)
    ensures
        identity == big_endian(octets@),
{
    let mut identity: u128 = 0;
    let mut i: usize = 0;
    while i < 16
        invariant
            i <= 16,
            identity == big_endian(octets@.take(i as int)),
        decreases 16 - i,
    {
        proof {
            let read = octets@.take(i as int);
            lemma_big_endian_bound(read);
            assert(power_of_256(15) == 0x1_0000_0000_0000_0000_0000_0000_0000_00) by {
                reveal_with_fuel(power_of_256, 16);
            }
            assert(power_of_256(read.len()) <= power_of_256(15)) by {
                lemma_power_monotonic(read.len(), 15);
            }
            assert(octets@.take(i + 1).drop_last() =~= read);
        }
        identity = identity * 256 + octets[i] as u128;
        i += 1;
    }
    assert(octets@.take(16) =~= octets@);
    identity
}

/// The identity of the IPv4 address with the given bytes: that of the IPv6
/// address it is mapped to.
pub fn identity_of_ipv4(octets: &[u8; 4]) -> (identity: SessionIdentity)
    ensures
        identity == IPV4_PREFIX + big_endian(octets@),
        IPV4_PREFIX <= identity < IPV4_PREFIX + 0x1_0000_0000,
{
    proof {
        reveal_with_fuel(big_endian, 5);
        assert(octets@.drop_last().drop_last().drop_last().drop_last().len() == 0);
    }
    IPV4_PREFIX + (octets[0] as u128) * 16777216 + (octets[1] as u128) * 65536 + (octets[2] as u128)
        * 256 + (octets[3] as u128)
}

/// 256 to a power grows with the power.
proof fn lemma_power_monotonic(low: nat, high: nat)
    requires
        low <= high,
    ensures
        power_of_256(low) <= power_of_256(high),
    decreases high,
{
    if low < high {
        lemma_power_monotonic(low, (high - 1) as nat);
    }
}

} // verus!
