//! Private addressing: every job receives the next pair of addresses from a
//! counter that only moves forward.

use crate::text::{decimal, push_decimal};
use vstd::prelude::*;
use vstd::string::*;

verus! {

/// An IPv4 address, most significant octet first.
#[derive(Clone, Copy, Debug, PartialEq, Eq, Hash, Structural)]
pub struct Address {
    pub a: u8,
    pub b: u8,
    pub c: u8,
    pub d: u8,
}

/// The two ends of a job's virtual link: the host side and the guest side.
#[derive(Clone, Copy, Debug, PartialEq, Eq, Hash, Structural)]
pub struct AddressPair {
    pub host: Address,
    pub guest: Address,
}

/// The source of address pairs. It counts the pairs handed out so far and
/// never hands one out again before the sixteen-bit address space wraps.
#[derive(Debug)]
pub struct AddressCounter {
    issued: u16,
}

/// Dotted-quad text of an address.
pub open spec fn dotted(addr: Address) -> Seq<char> {
    decimal(addr.a as nat) + seq!['.'] + decimal(addr.b as nat) + seq!['.'] + decimal(
        addr.c as nat,
    ) + seq!['.'] + decimal(addr.d as nat)
}

/// The pair that stands at counter value `lsb`: the host end takes the value
/// itself, the guest end the value after it, the high byte of the value
/// giving the third octet and the low byte the fourth.
pub open spec fn pair_at(lsb: nat) -> AddressPair {
    AddressPair {
        host: Address { a: 192, b: 168, c: (lsb / 256) as u8, d: (lsb % 256) as u8 },
        guest: Address { a: 192, b: 168, c: (lsb / 256) as u8, d: (lsb % 256 + 1) as u8 },
    }
}

/// The pair handed out after `k` earlier ones: the counter advances by two
/// per pair and wraps at sixteen bits.
pub open spec fn nth_pair(k: nat) -> AddressPair {
    pair_at((2 * k) % 65536)
}

/// Whether two pairs have no address in common.
pub open spec fn disjoint(p: AddressPair, q: AddressPair) -> bool {
    &&& p.host != q.host
    &&& p.host != q.guest
    &&& p.guest != q.host
    &&& p.guest != q.guest
}

/// Two pairs handed out fewer than 32768 allocations apart share no address,
/// and the two ends of one pair always differ. In particular the pair of one
/// allocation and that of the next are disjoint.
pub proof fn law_pairs_disjoint(j: nat, k: nat)
    requires
        j < k,
        k - j < 32768,
    ensures
        disjoint(nth_pair(j), nth_pair(k)),
        nth_pair(j).host != nth_pair(j).guest,
        nth_pair(k).host != nth_pair(k).guest,
{
    let x = (2 * j) % 65536;
    let y = (2 * k) % 65536;
    assert(x % 2 == 0 && y % 2 == 0 && x != y && 0 <= x < 65536 && 0 <= y < 65536) by {
        let qj = (2 * j) / 65536;
        let qk = (2 * k) / 65536;
        assert(2 * j == 65536 * qj + x);
        assert(2 * k == 65536 * qk + y);
        if x == y {
            assert(2 * (k - j) == 65536 * (qk - qj));
            assert(qk - qj >= 1);
        }
    }
    assert(x % 256 <= 254 && y % 256 <= 254);
    assert(x == 256 * (x / 256) + x % 256);
    assert(y == 256 * (y / 256) + y % 256);
    assert((x % 256) % 2 == 0);
    assert((y % 256) % 2 == 0);
}

/// The first pair is `192.168.0.0` and `192.168.0.1`, the second
/// `192.168.0.2` and `192.168.0.3`.
pub proof fn law_first_pairs()
    ensures
        nth_pair(0) == (AddressPair {
            host: Address { a: 192, b: 168, c: 0, d: 0 },
            guest: Address { a: 192, b: 168, c: 0, d: 1 },
        }),
        nth_pair(1) == (AddressPair {
            host: Address { a: 192, b: 168, c: 0, d: 2 },
            guest: Address { a: 192, b: 168, c: 0, d: 3 },
        }),
{
}

impl Address {
    /// The address in dotted-quad notation.
    pub fn to_text(&self) -> (s: String)
        ensures
            s@ == dotted(*self),
    {
        proof {
            reveal_strlit(".");
        }
        let mut s = String::new();
        push_decimal(&mut s, self.a as u16);
        s.append(".");
        push_decimal(&mut s, self.b as u16);
        s.append(".");
        push_decimal(&mut s, self.c as u16);
        s.append(".");
        push_decimal(&mut s, self.d as u16);
        assert(s@ =~= dotted(*self));
        s
    }
}

impl AddressCounter {
    /// How many pairs have been handed out, modulo the counter's period.
    pub closed spec fn issued(&self) -> nat {
        self.issued as nat
    }

    /// A counter that has handed out nothing yet.
    pub fn new() -> (c: AddressCounter)
        ensures
            c.issued() == 0,
    {
        AddressCounter { issued: 0 }
    }

    /// Hands out the next pair and moves the counter past it.
    pub fn next_pair(&mut self) -> (pair: AddressPair)
        ensures
            pair == nth_pair(old(self).issued()),
            final(self).issued() == (old(self).issued() + 1) % 65536,
    {
        let lsb: u32 = (self.issued as u32 * 2) % 65536;
        let high: u8 = (lsb / 256) as u8;
        let low: u8 = (lsb % 256) as u8;
        assert(low <= 254) by {
            assert(lsb % 2 == 0);
            assert(lsb == 256 * (lsb / 256) + lsb % 256);
        }
        self.issued = if self.issued == 65535 {
            0
        } else {
            self.issued + 1
        };
        AddressPair {
            host: Address { a: 192, b: 168, c: high, d: low },
            guest: Address { a: 192, b: 168, c: high, d: low + 1 },
        }
    }
}

} // verus!
