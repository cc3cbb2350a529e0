//! ARP for IPv4 over Ethernet (RFC 826): a fixed body of 28 bytes.

use crate::address::{Ipv4Addr, MacAddr};
use crate::bytes::{be16_at, be16_octets, read_be16};
use vstd::prelude::*;

verus! {

/// Length of an ARP body for IPv4 over Ethernet.
pub const ARP_PACKET_LEN: usize = 28;

/// Operation code of a request.
pub const ARP_OPERATION_REQUEST: u16 = 1;

/// Operation code of a reply.
pub const ARP_OPERATION_REPLY: u16 = 2;

/// Hardware type of Ethernet.
pub const ARP_HARDWARE_ETHERNET: u16 = 1;

/// The fields of an ARP body.
#[derive(Clone, Copy, Debug, PartialEq, Eq, Structural)]
pub struct Arp {
    pub hardware_type: u16,
    pub protocol_type: u16,
    pub hw_addr_len: u8,
    pub proto_addr_len: u8,
    pub operation: u16,
    pub sender_hw_addr: MacAddr,
    pub sender_proto_addr: Ipv4Addr,
    pub target_hw_addr: MacAddr,
    pub target_proto_addr: Ipv4Addr,
}

/// The 28 bytes that carry `arp`, field after field, numbers big-endian.
pub open spec fn arp_encode(arp: Arp) -> Seq<u8> {
    be16_octets(arp.hardware_type) + be16_octets(arp.protocol_type) + seq![
        arp.hw_addr_len,
        arp.proto_addr_len,
    ] + be16_octets(arp.operation) + arp.sender_hw_addr.octets() + arp.sender_proto_addr.octets()
        + arp.target_hw_addr.octets() + arp.target_proto_addr.octets()
}

/// The fields read from the first 28 bytes of `body`.
pub open spec fn arp_decode(body: Seq<u8>) -> Arp {
    Arp {
        hardware_type: be16_at(body, 0),
        protocol_type: be16_at(body, 2),
        hw_addr_len: body[4],
        proto_addr_len: body[5],
        operation: be16_at(body, 6),
        sender_hw_addr: MacAddr::from_octets(body, 8),
        sender_proto_addr: Ipv4Addr::from_octets(body, 14),
        target_hw_addr: MacAddr::from_octets(body, 18),
        target_proto_addr: Ipv4Addr::from_octets(body, 24),
    }
}

/// Encoding gives 28 bytes, and decoding them gives the fields back.
pub proof fn lemma_arp_decode_encode(arp: Arp)
    ensures
        arp_encode(arp).len() == 28,
        arp_decode(arp_encode(arp)) == arp,
{
}

/// A borrowed ARP body of at least 28 bytes.
pub struct ArpPacket<'a> {
    packet: &'a [u8],
}

impl<'a> View for ArpPacket<'a> {
    type V = Seq<u8>;

    closed spec fn view(&self) -> Seq<u8> {
        self.packet@
    }
}

impl<'a> ArpPacket<'a> {
    #[verifier::type_invariant]
    spec fn long_enough(self) -> bool {
        self.packet@.len() >= 28
    }

    /// Smallest number of bytes an ARP body can have.
    pub fn minimum_packet_size() -> (r: usize)
        ensures
            r == 28,
    {
        ARP_PACKET_LEN
    }

    /// A view of `packet`, or `None` when it is shorter than 28 bytes.
    pub fn new(packet: &'a [u8]) -> (r: Option<ArpPacket<'a>>)
        ensures
            r is Some <==> packet@.len() >= 28,
            r matches Some(p) ==> p@ == packet@,
    {
        if packet.len() >= ARP_PACKET_LEN {
            Some(ArpPacket { packet })
        } else {
            None
        }
    }

    pub fn get_hardware_type(&self) -> (r: u16)
        ensures
            r == arp_decode(self@).hardware_type,
    {
        proof {
            use_type_invariant(self);
        }
        read_be16(self.packet, 0)
    }

    pub fn get_protocol_type(&self) -> (r: u16)
        ensures
            r == arp_decode(self@).protocol_type,
    {
        proof {
            use_type_invariant(self);
        }
        read_be16(self.packet, 2)
    }

    pub fn get_hw_addr_len(&self) -> (r: u8)
        ensures
            r == arp_decode(self@).hw_addr_len,
    {
        proof {
            use_type_invariant(self);
        }
        self.packet[4]
    }

    pub fn get_proto_addr_len(&self) -> (r: u8)
        ensures
            r == arp_decode(self@).proto_addr_len,
    {
        proof {
            use_type_invariant(self);
        }
        self.packet[5]
    }

    pub fn get_operation(&self) -> (r: u16)
        ensures
            r == arp_decode(self@).operation,
    {
        proof {
            use_type_invariant(self);
        }
        read_be16(self.packet, 6)
    }

    pub fn get_sender_hw_addr(&self) -> (r: MacAddr)
        ensures
            r == arp_decode(self@).sender_hw_addr,
    {
        proof {
            use_type_invariant(self);
        }
        MacAddr::read(self.packet, 8)
    }

    pub fn get_sender_proto_addr(&self) -> (r: Ipv4Addr)
        ensures
            r == arp_decode(self@).sender_proto_addr,
    {
        proof {
            use_type_invariant(self);
        }
        Ipv4Addr::read(self.packet, 14)
    }

    pub fn get_target_hw_addr(&self) -> (r: MacAddr)
        ensures
            r == arp_decode(self@).target_hw_addr,
    {
        proof {
            use_type_invariant(self);
        }
        MacAddr::read(self.packet, 18)
    }

    pub fn get_target_proto_addr(&self) -> (r: Ipv4Addr)
        ensures
            r == arp_decode(self@).target_proto_addr,
    {
        proof {
            use_type_invariant(self);
        }
        Ipv4Addr::read(self.packet, 24)
    }

    /// All fields at once.
    pub fn from_packet(&self) -> (r: Arp)
        ensures
            self@.len() >= 28,
            r == arp_decode(self@),
    {
        proof {
            use_type_invariant(self);
        }
        Arp {
            hardware_type: self.get_hardware_type(),
            protocol_type: self.get_protocol_type(),
            hw_addr_len: self.get_hw_addr_len(),
            proto_addr_len: self.get_proto_addr_len(),
            operation: self.get_operation(),
            sender_hw_addr: self.get_sender_hw_addr(),
            sender_proto_addr: self.get_sender_proto_addr(),
            target_hw_addr: self.get_target_hw_addr(),
            target_proto_addr: self.get_target_proto_addr(),
        }
    }
}

} // verus!
