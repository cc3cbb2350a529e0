//! IPv4 header: the fields the interceptor reads, and where the payload lies.

use crate::address::Ipv4Addr;
use crate::bytes::{be16_at, read_be16};
use vstd::prelude::*;
use vstd::slice::slice_subrange;

verus! {

/// Length of an IPv4 header without options.
pub const IPV4_HEADER_LEN: usize = 20;

/// Header length in 32-bit words, the low half of the first octet.
pub open spec fn ipv4_header_length(packet: Seq<u8>) -> int {
    packet[0] as int % 16
}

/// Version, the high half of the first octet.
pub open spec fn ipv4_version(packet: Seq<u8>) -> int {
    packet[0] as int / 16
}

/// Total length as the header announces it.
pub open spec fn ipv4_total_length(packet: Seq<u8>) -> int {
    be16_at(packet, 2) as int
}

/// Protocol number of the payload.
pub open spec fn ipv4_next_level_protocol(packet: Seq<u8>) -> u8 {
    packet[9]
}

/// Source address.
pub open spec fn ipv4_source(packet: Seq<u8>) -> Ipv4Addr {
    Ipv4Addr::from_octets(packet, 12)
}

/// Destination address.
pub open spec fn ipv4_destination(packet: Seq<u8>) -> Ipv4Addr {
    Ipv4Addr::from_octets(packet, 16)
}

/// Where the payload starts: after the announced header, and never before
/// the end of the fixed 20 bytes.
pub open spec fn ipv4_payload_start(packet: Seq<u8>) -> int {
    if ipv4_header_length(packet) * 4 > 20 {
        ipv4_header_length(packet) * 4
    } else {
        20
    }
}

/// How many payload bytes the header announces: total length less header
/// length, and zero where that would be negative.
pub open spec fn ipv4_announced_payload_length(packet: Seq<u8>) -> int {
    if ipv4_total_length(packet) > ipv4_header_length(packet) * 4 {
        ipv4_total_length(packet) - ipv4_header_length(packet) * 4
    } else {
        0
    }
}

/// Where the payload ends: after the announced payload, and never beyond
/// the bytes at hand.
pub open spec fn ipv4_payload_end(packet: Seq<u8>) -> int {
    if ipv4_payload_start(packet) + ipv4_announced_payload_length(packet) < packet.len() {
        ipv4_payload_start(packet) + ipv4_announced_payload_length(packet)
    } else {
        packet.len() as int
    }
}

/// The payload of a packet of at least 20 bytes; empty when the bytes end
/// at or before the start of the payload.
pub open spec fn ipv4_payload(packet: Seq<u8>) -> Seq<u8> {
    if packet.len() <= ipv4_payload_start(packet) {
        Seq::empty()
    } else {
        packet.subrange(ipv4_payload_start(packet), ipv4_payload_end(packet))
    }
}

/// A borrowed IPv4 packet of at least 20 bytes.
pub struct Ipv4Packet<'a> {
    packet: &'a [u8],
}

impl<'a> View for Ipv4Packet<'a> {
    type V = Seq<u8>;

    closed spec fn view(&self) -> Seq<u8> {
        self.packet@
    }
}

impl<'a> Ipv4Packet<'a> {
    #[verifier::type_invariant]
    spec fn long_enough(self) -> bool {
        self.packet@.len() >= 20
    }

    /// Smallest number of bytes an IPv4 packet can have.
    pub fn minimum_packet_size() -> (r: usize)
        ensures
            r == 20,
    {
        IPV4_HEADER_LEN
    }

    /// A view of `packet`, or `None` when it is shorter than 20 bytes.
    pub fn new(packet: &'a [u8]) -> (r: Option<Ipv4Packet<'a>>)
        ensures
            r is Some <==> packet@.len() >= 20,
            r matches Some(p) ==> p@ == packet@,
    {
        if packet.len() >= IPV4_HEADER_LEN {
            Some(Ipv4Packet { packet })
        } else {
            None
        }
    }

    pub fn get_version(&self) -> (r: u8)
        ensures
            r == ipv4_version(self@),
    {
        proof {
            use_type_invariant(self);
        }
        self.packet[0] / 16
    }

    pub fn get_header_length(&self) -> (r: u8)
        ensures
            r == ipv4_header_length(self@),
            r < 16,
    {
        proof {
            use_type_invariant(self);
        }
        self.packet[0] % 16
    }

    pub fn get_total_length(&self) -> (r: u16)
        ensures
            r == ipv4_total_length(self@),
    {
        proof {
            use_type_invariant(self);
        }
        read_be16(self.packet, 2)
    }

    pub fn get_next_level_protocol(&self) -> (r: u8)
        ensures
            r == ipv4_next_level_protocol(self@),
    {
        proof {
            use_type_invariant(self);
        }
        self.packet[9]
    }

    pub fn get_source(&self) -> (r: Ipv4Addr)
        ensures
            r == ipv4_source(self@),
    {
        proof {
            use_type_invariant(self);
        }
        Ipv4Addr::read(self.packet, 12)
    }

    pub fn get_destination(&self) -> (r: Ipv4Addr)
        ensures
            r == ipv4_destination(self@),
    {
        proof {
            use_type_invariant(self);
        }
        Ipv4Addr::read(self.packet, 16)
    }

    /// The bytes after the header, as far as the header announces them and
    /// the packet holds them.
    pub fn payload(&self) -> (r: &'a [u8])
        ensures
            self@.len() >= 20,
            r@ == ipv4_payload(self@),
    {
        proof {
            use_type_invariant(self);
        }
        let len: usize = self.packet.len();
        let header: usize = (self.get_header_length() as usize) * 4;
        let total: usize = self.get_total_length() as usize;
        let start: usize = if header > 20 {
            header
        } else {
            20
        };
        let announced: usize = if total > header {
            total - header
        } else {
            0
        };
        if len <= start {
            let r = slice_subrange(self.packet, 0, 0);
            assert(r@ =~= Seq::<u8>::empty());
            r
        } else {
            let end: usize = if start + announced < len {
                start + announced
            } else {
                len
            };
            slice_subrange(self.packet, start, end)
        }
    }

    /// The whole packet.
    pub fn packet(&self) -> (r: &'a [u8])
        ensures
            self@.len() >= 20,
            r@ == self@,
    {
        proof {
            use_type_invariant(self);
        }
        self.packet
    }
}

} // verus!
