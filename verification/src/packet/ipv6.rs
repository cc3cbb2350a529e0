//! IPv6 fixed header: the fields the interceptor reads, and the payload.

use crate::address::Ipv6Addr;
use crate::bytes::{be16_at, read_be16};
use vstd::prelude::*;
use vstd::slice::slice_subrange;

verus! {

/// Length of the fixed IPv6 header.
pub const IPV6_HEADER_LEN: usize = 40;

/// Version, the high half of the first octet.
pub open spec fn ipv6_version(packet: Seq<u8>) -> int {
    packet[0] as int / 16
}

/// Payload length as the header announces it.
pub open spec fn ipv6_payload_length(packet: Seq<u8>) -> int {
    be16_at(packet, 4) as int
}

/// Type of the header that follows the fixed one.
pub open spec fn ipv6_next_header(packet: Seq<u8>) -> u8 {
    packet[6]
}

/// Source address.
pub open spec fn ipv6_source(packet: Seq<u8>) -> Ipv6Addr {
    Ipv6Addr::from_octets(packet, 8)
}

/// Destination address.
pub open spec fn ipv6_destination(packet: Seq<u8>) -> Ipv6Addr {
    Ipv6Addr::from_octets(packet, 24)
}

/// Where the payload ends: after the announced length, and never beyond
/// the bytes at hand.
pub open spec fn ipv6_payload_end(packet: Seq<u8>) -> int {
    if 40 + ipv6_payload_length(packet) < packet.len() {
        40 + ipv6_payload_length(packet)
    } else {
        packet.len() as int
    }
}

/// The payload of a packet of at least 40 bytes.
pub open spec fn ipv6_payload(packet: Seq<u8>) -> Seq<u8> {
    if packet.len() <= 40 {
        Seq::empty()
    } else {
        packet.subrange(40, ipv6_payload_end(packet))
    }
}

/// A borrowed IPv6 packet of at least 40 bytes.
pub struct Ipv6Packet<'a> {
    packet: &'a [u8],
}

impl<'a> View for Ipv6Packet<'a> {
    type V = Seq<u8>;

    closed spec fn view(&self) -> Seq<u8> {
        self.packet@
    }
}

impl<'a> Ipv6Packet<'a> {
    #[verifier::type_invariant]
    spec fn long_enough(self) -> bool {
        self.packet@.len() >= 40
    }

    /// Smallest number of bytes an IPv6 packet can have.
    pub fn minimum_packet_size() -> (r: usize)
        ensures
            r == 40,
    {
        IPV6_HEADER_LEN
    }

    /// A view of `packet`, or `None` when it is shorter than 40 bytes.
    pub fn new(packet: &'a [u8]) -> (r: Option<Ipv6Packet<'a>>)
        ensures
            r is Some <==> packet@.len() >= 40,
            r matches Some(p) ==> p@ == packet@,
    {
        if packet.len() >= IPV6_HEADER_LEN {
            Some(Ipv6Packet { packet })
        } else {
            None
        }
    }

    pub fn get_version(&self) -> (r: u8)
        ensures
            r == ipv6_version(self@),
    {
        proof {
            use_type_invariant(self);
        }
        self.packet[0] / 16
    }

    pub fn get_payload_length(&self) -> (r: u16)
        ensures
            r == ipv6_payload_length(self@),
    {
        proof {
            use_type_invariant(self);
        }
        read_be16(self.packet, 4)
    }

    pub fn get_next_header(&self) -> (r: u8)
        ensures
            r == ipv6_next_header(self@),
    {
        proof {
            use_type_invariant(self);
        }
        self.packet[6]
    }

    pub fn get_source(&self) -> (r: Ipv6Addr)
        ensures
            r == ipv6_source(self@),
    {
        proof {
            use_type_invariant(self);
        }
        Ipv6Addr::read(self.packet, 8)
    }

    pub fn get_destination(&self) -> (r: Ipv6Addr)
        ensures
            r == ipv6_destination(self@),
    {
        proof {
            use_type_invariant(self);
        }
        Ipv6Addr::read(self.packet, 24)
    }

    /// The bytes after the fixed header, as far as the header announces
    /// them and the packet holds them.
    pub fn payload(&self) -> (r: &'a [u8])
        ensures
            self@.len() >= 40,
            r@ == ipv6_payload(self@),
    {
        proof {
            use_type_invariant(self);
        }
        let len: usize = self.packet.len();
        let announced: usize = self.get_payload_length() as usize;
        if len <= 40 {
            let r = slice_subrange(self.packet, 0, 0);
            assert(r@ =~= Seq::<u8>::empty());
            r
        } else {
            let end: usize = if 40 + announced < len {
                40 + announced
            } else {
                len
            };
            slice_subrange(self.packet, 40, end)
        }
    }

    /// The whole packet.
    pub fn packet(&self) -> (r: &'a [u8])
        ensures
            self@.len() >= 40,
            r@ == self@,
    {
        proof {
            use_type_invariant(self);
        }
        self.packet
    }
}

} // verus!
