//! Ethernet II: destination, source, ethertype, payload.

use crate::address::MacAddr;
use crate::bytes::{be16_at, be16_octets, read_be16};
use vstd::prelude::*;
use vstd::slice::slice_subrange;

verus! {

/// Length of the Ethernet II header.
pub const ETHERNET_HEADER_LEN: usize = 14;

/// Largest frame the interceptor handles: header and 1500 bytes of payload.
pub const ETHERNET_MAX_FRAME_LEN: usize = 1514;

/// Ethertype of IPv4.
pub const ETHERTYPE_IPV4: u16 = 0x0800;

/// Ethertype of ARP.
pub const ETHERTYPE_ARP: u16 = 0x0806;

/// Ethertype of IPv6.
pub const ETHERTYPE_IPV6: u16 = 0x86DD;

/// Destination address of a frame of at least 14 bytes.
pub open spec fn frame_destination(frame: Seq<u8>) -> MacAddr {
    MacAddr::from_octets(frame, 0)
}

/// Source address of a frame of at least 14 bytes.
pub open spec fn frame_source(frame: Seq<u8>) -> MacAddr {
    MacAddr::from_octets(frame, 6)
}

/// Ethertype of a frame of at least 14 bytes.
pub open spec fn frame_ethertype(frame: Seq<u8>) -> u16 {
    be16_at(frame, 12)
}

/// Everything after the header of a frame of at least 14 bytes.
pub open spec fn frame_payload(frame: Seq<u8>) -> Seq<u8> {
    frame.subrange(14, frame.len() as int)
}

/// The 14 header bytes for the given addresses and ethertype.
pub open spec fn ethernet_header(source: MacAddr, destination: MacAddr, ethertype: u16) -> Seq<u8> {
    destination.octets() + source.octets() + be16_octets(ethertype)
}

/// A whole frame: header, then the payload unchanged.
pub open spec fn ethernet_frame(
    source: MacAddr,
    destination: MacAddr,
    ethertype: u16,
    payload: Seq<u8>,
) -> Seq<u8> {
    ethernet_header(source, destination, ethertype) + payload
}

/// Reading back the fields of a built frame gives what it was built from.
pub proof fn lemma_ethernet_round_trip(
    source: MacAddr,
    destination: MacAddr,
    ethertype: u16,
    payload: Seq<u8>,
)
    ensures
        ethernet_frame(source, destination, ethertype, payload).len() == 14 + payload.len(),
        frame_source(ethernet_frame(source, destination, ethertype, payload)) == source,
        frame_destination(ethernet_frame(source, destination, ethertype, payload)) == destination,
        frame_ethertype(ethernet_frame(source, destination, ethertype, payload)) == ethertype,
        frame_payload(ethernet_frame(source, destination, ethertype, payload)) == payload,
{
    let f = ethernet_frame(source, destination, ethertype, payload);
    assert(f.len() == 14 + payload.len());
    assert(frame_payload(f) =~= payload);
}

/// A borrowed Ethernet II frame of at least 14 bytes.
pub struct EthernetPacket<'a> {
    packet: &'a [u8],
}

impl<'a> View for EthernetPacket<'a> {
    type V = Seq<u8>;

    closed spec fn view(&self) -> Seq<u8> {
        self.packet@
    }
}

impl<'a> EthernetPacket<'a> {
    #[verifier::type_invariant]
    spec fn long_enough(self) -> bool {
        self.packet@.len() >= 14
    }

    /// Smallest number of bytes a frame can have.
    pub fn minimum_packet_size() -> (r: usize)
        ensures
            r == 14,
    {
        ETHERNET_HEADER_LEN
    }

    /// A view of `packet`, or `None` when it is shorter than the header.
    pub fn new(packet: &'a [u8]) -> (r: Option<EthernetPacket<'a>>)
        ensures
            r is Some <==> packet@.len() >= 14,
            r matches Some(p) ==> p@ == packet@,
    {
        if packet.len() >= ETHERNET_HEADER_LEN {
            Some(EthernetPacket { packet })
        } else {
            None
        }
    }

    pub fn get_destination(&self) -> (r: MacAddr)
        ensures
            self@.len() >= 14,
            r == frame_destination(self@),
    {
        proof {
            use_type_invariant(self);
        }
        MacAddr::read(self.packet, 0)
    }

    pub fn get_source(&self) -> (r: MacAddr)
        ensures
            self@.len() >= 14,
            r == frame_source(self@),
    {
        proof {
            use_type_invariant(self);
        }
        MacAddr::read(self.packet, 6)
    }

    pub fn get_ethertype(&self) -> (r: u16)
        ensures
            self@.len() >= 14,
            r == frame_ethertype(self@),
    {
        proof {
            use_type_invariant(self);
        }
        read_be16(self.packet, 12)
    }

    /// The bytes after the header.
    pub fn payload(&self) -> (r: &'a [u8])
        ensures
            self@.len() >= 14,
            r@ == frame_payload(self@),
    {
        proof {
            use_type_invariant(self);
        }
        slice_subrange(self.packet, ETHERNET_HEADER_LEN, self.packet.len())
    }

    /// The whole frame.
    pub fn packet(&self) -> (r: &'a [u8])
        ensures
            self@.len() >= 14,
            r@ == self@,
    {
        proof {
            use_type_invariant(self);
        }
        self.packet
    }
}

} // verus!
