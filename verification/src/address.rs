//! Link-layer and network-layer addresses as plain values.

use crate::bytes::{be16_at, read_be16};
use vstd::arithmetic::div_mod::{lemma_div_denominator, lemma_fundamental_div_mod_converse};
use vstd::prelude::*;

verus! {

/// A 48-bit Ethernet hardware address, most significant octet first.
#[derive(Clone, Copy, Debug, PartialEq, Eq, Structural, Hash)]
pub struct MacAddr(pub u8, pub u8, pub u8, pub u8, pub u8, pub u8);

impl MacAddr {
    /// The six octets in transmission order.
    pub open spec fn octets(self) -> Seq<u8> {
        seq![self.0, self.1, self.2, self.3, self.4, self.5]
    }

    /// The address read from six octets starting at `at`.
    pub open spec fn from_octets(s: Seq<u8>, at: int) -> MacAddr {
        MacAddr(s[at], s[at + 1], s[at + 2], s[at + 3], s[at + 4], s[at + 5])
    }

    /// `ff:ff:ff:ff:ff:ff`.
    pub open spec fn spec_broadcast() -> MacAddr {
        MacAddr(0xff, 0xff, 0xff, 0xff, 0xff, 0xff)
    }

    /// `00:00:00:00:00:00`.
    pub open spec fn spec_zero() -> MacAddr {
        MacAddr(0, 0, 0, 0, 0, 0)
    }

    pub fn new(a: u8, b: u8, c: u8, d: u8, e: u8, f: u8) -> (r: MacAddr)
        ensures
            r == MacAddr(a, b, c, d, e, f),
    {
        MacAddr(a, b, c, d, e, f)
    }

    /// `ff:ff:ff:ff:ff:ff`, the address every station listens to.
    #[verifier::when_used_as_spec(spec_broadcast)]
    pub fn broadcast() -> (r: MacAddr)
        ensures
            r == MacAddr::spec_broadcast(),
    {
        MacAddr(0xff, 0xff, 0xff, 0xff, 0xff, 0xff)
    }

    /// `00:00:00:00:00:00`.
    #[verifier::when_used_as_spec(spec_zero)]
    pub fn zero() -> (r: MacAddr)
        ensures
            r == MacAddr::spec_zero(),
    {
        MacAddr(0, 0, 0, 0, 0, 0)
    }

    /// Whether this is the broadcast address.
    pub fn is_broadcast(&self) -> (r: bool)
        ensures
            r == (*self == MacAddr::spec_broadcast()),
    {
        self.0 == 0xff && self.1 == 0xff && self.2 == 0xff && self.3 == 0xff && self.4 == 0xff
            && self.5 == 0xff
    }

    /// Reads an address from `bytes[at .. at + 6]`.
    pub fn read(bytes: &[u8], at: usize) -> (r: MacAddr)
        requires
            at + 6 <= bytes@.len(),
        ensures
            r == MacAddr::from_octets(bytes@, at as int),
    {
        MacAddr(
            bytes[at],
            bytes[at + 1],
            bytes[at + 2],
            bytes[at + 3],
            bytes[at + 4],
            bytes[at + 5],
        )
    }

    /// Appends the six octets to `out`.
    pub fn write(&self, out: &mut Vec<u8>)
        ensures
            final(out)@ == old(out)@ + self.octets(),
    {
        out.push(self.0);
        out.push(self.1);
        out.push(self.2);
        out.push(self.3);
        out.push(self.4);
        out.push(self.5);
        assert(out@ =~= old(out)@ + self.octets());
    }
}

/// An IPv4 address, most significant octet first.
#[derive(Clone, Copy, Debug, PartialEq, Eq, Structural, Hash)]
pub struct Ipv4Addr(pub u8, pub u8, pub u8, pub u8);

impl Ipv4Addr {
    /// The four octets in network order.
    pub open spec fn octets(self) -> Seq<u8> {
        seq![self.0, self.1, self.2, self.3]
    }

    /// The address read from four octets starting at `at`.
    pub open spec fn from_octets(s: Seq<u8>, at: int) -> Ipv4Addr {
        Ipv4Addr(s[at], s[at + 1], s[at + 2], s[at + 3])
    }

    /// The address as one big-endian number.
    pub open spec fn bits(self) -> int {
        self.0 * 0x100_0000 + self.1 * 0x1_0000 + self.2 * 0x100 + self.3
    }

    pub fn new(a: u8, b: u8, c: u8, d: u8) -> (r: Ipv4Addr)
        ensures
            r == Ipv4Addr(a, b, c, d),
    {
        Ipv4Addr(a, b, c, d)
    }

    /// The address as one big-endian number; distinct addresses give
    /// distinct numbers.
    pub fn to_bits(&self) -> (r: u32)
        ensures
            r == self.bits(),
    {
        (self.0 as u32) * 0x100_0000 + (self.1 as u32) * 0x1_0000 + (self.2 as u32) * 0x100 + (
        self.3 as u32)
    }

    /// The address whose big-endian number is `bits`, for `bits` below 2^32.
    pub open spec fn of_bits(bits: int) -> Ipv4Addr {
        Ipv4Addr(
            (bits / 0x100_0000) as u8,
            ((bits / 0x1_0000) % 0x100) as u8,
            ((bits / 0x100) % 0x100) as u8,
            (bits % 0x100) as u8,
        )
    }

    /// The address whose big-endian number is `bits`.
    pub fn from_bits(bits: u32) -> (r: Ipv4Addr)
        ensures
            r == Ipv4Addr::of_bits(bits as int),
            r.bits() == bits,
    {
        proof {
            lemma_ipv4_of_bits(bits as int);
        }
        Ipv4Addr(
            (bits / 0x100_0000) as u8,
            ((bits / 0x1_0000) % 0x100) as u8,
            ((bits / 0x100) % 0x100) as u8,
            (bits % 0x100) as u8,
        )
    }

    /// Reads an address from `bytes[at .. at + 4]`.
    pub fn read(bytes: &[u8], at: usize) -> (r: Ipv4Addr)
        requires
            at + 4 <= bytes@.len(),
        ensures
            r == Ipv4Addr::from_octets(bytes@, at as int),
    {
        Ipv4Addr(bytes[at], bytes[at + 1], bytes[at + 2], bytes[at + 3])
    }

    /// Appends the four octets to `out`.
    pub fn write(&self, out: &mut Vec<u8>)
        ensures
            final(out)@ == old(out)@ + self.octets(),
    {
        out.push(self.0);
        out.push(self.1);
        out.push(self.2);
        out.push(self.3);
        assert(out@ =~= old(out)@ + self.octets());
    }
}

/// Two addresses with the same big-endian number are the same address.
pub proof fn lemma_ipv4_bits_injective(a: Ipv4Addr, b: Ipv4Addr)
    requires
        a.bits() == b.bits(),
    ensures
        a == b,
{
    let k3 = (b.0 - a.0) * 0x1_0000 + (b.1 - a.1) * 0x100 + (b.2 - a.2);
    assert(a.3 - b.3 == 0x100 * k3);
    assert(k3 == 0);
    let k2 = (b.0 - a.0) * 0x100 + (b.1 - a.1);
    assert(a.2 - b.2 == 0x100 * k2);
    assert(k2 == 0);
    let k1 = b.0 - a.0;
    assert(a.1 - b.1 == 0x100 * k1);
    assert(k1 == 0);
}

/// Going to the big-endian number and back gives the same address, and the
/// number of an address is below 2^32.
pub proof fn lemma_ipv4_bits_round_trip(a: Ipv4Addr)
    ensures
        0 <= a.bits() < 0x1_0000_0000,
        Ipv4Addr::of_bits(a.bits()) == a,
{
    let x = a.bits();
    lemma_fundamental_div_mod_converse(x, 0x100, a.0 * 0x1_0000 + a.1 * 0x100 + a.2, a.3 as int);
    lemma_fundamental_div_mod_converse(x, 0x1_0000, a.0 * 0x100 + a.1, a.2 * 0x100 + a.3);
    lemma_fundamental_div_mod_converse(
        x,
        0x100_0000,
        a.0 as int,
        a.1 * 0x1_0000 + a.2 * 0x100 + a.3,
    );
    lemma_fundamental_div_mod_converse(x / 0x1_0000, 0x100, a.0 as int, a.1 as int);
    lemma_fundamental_div_mod_converse(x / 0x100, 0x100, a.0 * 0x100 + a.1, a.2 as int);
}

/// Going from a number below 2^32 to the address and back gives the number.
pub proof fn lemma_ipv4_of_bits(bits: int)
    requires
        0 <= bits < 0x1_0000_0000,
    ensures
        Ipv4Addr::of_bits(bits).bits() == bits,
{
    let q1 = bits / 0x100;
    let q2 = bits / 0x1_0000;
    let q3 = bits / 0x100_0000;
    lemma_div_denominator(bits, 0x100, 0x100);
    lemma_div_denominator(bits, 0x1_0000, 0x100);
    assert(q2 == q1 / 0x100);
    assert(q3 == q2 / 0x100);
    assert(bits == q1 * 0x100 + bits % 0x100);
    assert(q1 == q2 * 0x100 + q1 % 0x100);
    assert(q2 == q3 * 0x100 + q2 % 0x100);
    assert(0 <= q3 < 0x100);
}

/// An IPv6 address as its eight 16-bit segments, most significant first.
#[derive(Clone, Copy, Debug, PartialEq, Eq, Structural, Hash)]
pub struct Ipv6Addr(pub u16, pub u16, pub u16, pub u16, pub u16, pub u16, pub u16, pub u16);

impl Ipv6Addr {
    /// The address read from sixteen octets starting at `at`.
    pub open spec fn from_octets(s: Seq<u8>, at: int) -> Ipv6Addr {
        Ipv6Addr(
            be16_at(s, at),
            be16_at(s, at + 2),
            be16_at(s, at + 4),
            be16_at(s, at + 6),
            be16_at(s, at + 8),
            be16_at(s, at + 10),
            be16_at(s, at + 12),
            be16_at(s, at + 14),
        )
    }

    pub fn new(a: u16, b: u16, c: u16, d: u16, e: u16, f: u16, g: u16, h: u16) -> (r: Ipv6Addr)
        ensures
            r == Ipv6Addr(a, b, c, d, e, f, g, h),
    {
        Ipv6Addr(a, b, c, d, e, f, g, h)
    }

    /// Reads an address from `bytes[at .. at + 16]`.
    pub fn read(bytes: &[u8], at: usize) -> (r: Ipv6Addr)
        requires
            at + 16 <= bytes@.len(),
        ensures
            r == Ipv6Addr::from_octets(bytes@, at as int),
    {
        let len: usize = bytes.len();
        assert(at + 16 <= len);
        Ipv6Addr(
            read_be16(bytes, at),
            read_be16(bytes, at + 2),
            read_be16(bytes, at + 4),
            read_be16(bytes, at + 6),
            read_be16(bytes, at + 8),
            read_be16(bytes, at + 10),
            read_be16(bytes, at + 12),
            read_be16(bytes, at + 14),
        )
    }
}

/// The source or destination of an inspected packet.
#[derive(Clone, Copy, Debug, PartialEq, Eq, Structural, Hash)]
pub enum IpAddr {
    V4(Ipv4Addr),
    V6(Ipv6Addr),
}

} // verus!
