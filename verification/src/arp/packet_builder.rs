//! Encoding of ARP requests and replies, and of the Ethernet frame round them.

use crate::address::MacAddr;
use crate::arp::network_location::NetworkLocation;
use crate::bytes::write_be16;
use crate::packet::arp::{
    arp_decode, arp_encode, lemma_arp_decode_encode, Arp, ARP_HARDWARE_ETHERNET,
    ARP_OPERATION_REPLY, ARP_OPERATION_REQUEST,
};
use crate::packet::ethernet::{
    ethernet_frame, frame_destination, frame_ethertype, frame_payload, frame_source,
    lemma_ethernet_round_trip, ETHERTYPE_IPV4,
};
use vstd::prelude::*;

verus! {

/// The ARP fields for IPv4 over Ethernet with the given operation, sender
/// and target.
pub open spec fn arp_message(operation: u16, sender: NetworkLocation, target: NetworkLocation) -> Arp {
    Arp {
        hardware_type: 1,
        protocol_type: 0x0800,
        hw_addr_len: 6,
        proto_addr_len: 4,
        operation,
        sender_hw_addr: sender.hw,
        sender_proto_addr: sender.ipv4,
        target_hw_addr: target.hw,
        target_proto_addr: target.ipv4,
    }
}

/// The 28 bytes of a request (operation 1) from `sender` for `target`.
pub open spec fn arp_request(sender: NetworkLocation, target: NetworkLocation) -> Seq<u8> {
    arp_encode(arp_message(1, sender, target))
}

/// The 28 bytes of a reply (operation 2) from `sender` to `target`.
pub open spec fn arp_response(sender: NetworkLocation, target: NetworkLocation) -> Seq<u8> {
    arp_encode(arp_message(2, sender, target))
}

/// Decoding an encoded request gives back its sender and target with
/// operation 1, and decoding an encoded reply gives them back with
/// operation 2; both are 28 bytes long.
pub proof fn lemma_arp_round_trip(sender: NetworkLocation, target: NetworkLocation)
    ensures
        arp_request(sender, target).len() == 28,
        arp_response(sender, target).len() == 28,
        arp_decode(arp_request(sender, target)) == arp_message(1, sender, target),
        arp_decode(arp_response(sender, target)) == arp_message(2, sender, target),
{
    lemma_arp_decode_encode(arp_message(1, sender, target));
    lemma_arp_decode_encode(arp_message(2, sender, target));
}

/// The round trip holds through the Ethernet frame too: the payload of the
/// wrapped body decodes to the message, and the header fields read back.
pub proof fn lemma_framed_arp_round_trip(
    operation: u16,
    sender: NetworkLocation,
    target: NetworkLocation,
    source: MacAddr,
    destination: MacAddr,
    ether_type: u16,
)
    ensures
        ({
            let frame = ethernet_frame(
                source,
                destination,
                ether_type,
                arp_encode(arp_message(operation, sender, target)),
            );
            &&& frame.len() == 42
            &&& frame_source(frame) == source
            &&& frame_destination(frame) == destination
            &&& frame_ethertype(frame) == ether_type
            &&& arp_decode(frame_payload(frame)) == arp_message(operation, sender, target)
        }),
{
    let body = arp_encode(arp_message(operation, sender, target));
    lemma_arp_decode_encode(arp_message(operation, sender, target));
    lemma_ethernet_round_trip(source, destination, ether_type, body);
}

/// Builds ARP bodies and Ethernet frames.
pub trait ArpPacketBuilder {
    /// The ARP body of a request from `sender` for `target`.
    fn build_request(&self, sender: NetworkLocation, target: NetworkLocation) -> (r: Vec<u8>)
        ensures
            r@ == arp_request(sender, target),
    ;

    /// The ARP body of a reply from `sender` to `target`.
    fn build_response(&self, sender: NetworkLocation, target: NetworkLocation) -> (r: Vec<u8>)
        ensures
            r@ == arp_response(sender, target),
    ;

    /// `packet` behind an Ethernet II header from `sender` to `target`.
    fn wrap_in_ethernet(
        &self,
        sender: MacAddr,
        target: MacAddr,
        ether_type: u16,
        packet: Vec<u8>,
    ) -> (r: Vec<u8>)
        ensures
            r@ == ethernet_frame(sender, target, ether_type, packet@),
    ;
}

/// The builder for IPv4 over Ethernet. It holds no state.
pub struct ArpPacketBuilderImpl;

impl ArpPacketBuilderImpl {
    pub fn new() -> (r: Self) {
        ArpPacketBuilderImpl
    }

    /// The ARP body with operation 1 when `is_request`, else 2.
    pub fn build(&self, is_request: bool, sender: NetworkLocation, target: NetworkLocation) -> (r:
        Vec<u8>)
        ensures
            r@ == if is_request {
                arp_request(sender, target)
            } else {
                arp_response(sender, target)
            },
            r@.len() == 28,
    {
        let operation: u16 = if is_request {
            ARP_OPERATION_REQUEST
        } else {
            ARP_OPERATION_REPLY
        };
        let mut out: Vec<u8> = Vec::new();
        write_be16(ARP_HARDWARE_ETHERNET, &mut out);
        write_be16(ETHERTYPE_IPV4, &mut out);
        out.push(6);
        out.push(4);
        write_be16(operation, &mut out);
        sender.hw.write(&mut out);
        sender.ipv4.write(&mut out);
        target.hw.write(&mut out);
        target.ipv4.write(&mut out);
        assert(out@ =~= arp_encode(arp_message(operation, sender, target)));
        out
    }
}

impl ArpPacketBuilder for ArpPacketBuilderImpl {
    fn build_request(&self, sender: NetworkLocation, target: NetworkLocation) -> (r: Vec<u8>) {
        self.build(true, sender, target)
    }

    fn build_response(&self, sender: NetworkLocation, target: NetworkLocation) -> (r: Vec<u8>) {
        self.build(false, sender, target)
    }

    fn wrap_in_ethernet(
        &self,
        sender: MacAddr,
        target: MacAddr,
        ether_type: u16,
        packet: Vec<u8>,
    ) -> (r: Vec<u8>) {
        let mut body = packet;
        let mut out: Vec<u8> = Vec::new();
        target.write(&mut out);
        sender.write(&mut out);
        write_be16(ether_type, &mut out);
        out.append(&mut body);
        assert(out@ =~= ethernet_frame(sender, target, ether_type, packet@));
        out
    }
}

} // verus!
