use blitz::address::{Ipv4Addr, MacAddr};
use blitz::arp::network_location::NetworkLocation;
use blitz::arp::packet_builder::{ArpPacketBuilder, ArpPacketBuilderImpl};
use blitz::packet::arp::{Arp, ArpPacket};
use blitz::packet::ethernet::EthernetPacket;
use pnet::packet::arp::{ArpHardwareType, ArpOperation, MutableArpPacket};
use pnet::packet::ethernet::{EtherType, MutableEthernetPacket};
use pnet::packet::MutablePacket;

fn sender() -> NetworkLocation {
    NetworkLocation {
        ipv4: Ipv4Addr::new(192, 0, 2, 1),
        hw: MacAddr::new(0x02, 0x00, 0x00, 0x00, 0x00, 0x01),
    }
}

fn target() -> NetworkLocation {
    NetworkLocation { ipv4: Ipv4Addr::new(192, 0, 2, 5), hw: MacAddr::broadcast() }
}

fn pnet_mac(m: MacAddr) -> pnet::util::MacAddr {
    pnet::util::MacAddr::new(m.0, m.1, m.2, m.3, m.4, m.5)
}

fn octets(a: Ipv4Addr) -> [u8; 4] {
    [a.0, a.1, a.2, a.3]
}

fn pnet_arp(operation: u16, sender: NetworkLocation, target: NetworkLocation) -> Vec<u8> {
    let mut buffer = [0u8; 28];
    let mut packet = MutableArpPacket::new(&mut buffer).unwrap();
    packet.set_hardware_type(ArpHardwareType::new(1));
    packet.set_protocol_type(EtherType::new(0x0800));
    packet.set_hw_addr_len(6);
    packet.set_proto_addr_len(4);
    packet.set_operation(ArpOperation::new(operation));
    packet.set_sender_hw_addr(pnet_mac(sender.hw));
    packet.set_sender_proto_addr(octets(sender.ipv4).into());
    packet.set_target_hw_addr(pnet_mac(target.hw));
    packet.set_target_proto_addr(octets(target.ipv4).into());
    packet.packet_mut().to_vec()
}

#[test]
fn request_has_the_bytes_of_rfc_826() {
    let body = ArpPacketBuilderImpl::new().build_request(sender(), target());
    let expected: Vec<u8> = vec![
        0x00, 0x01, 0x08, 0x00, 0x06, 0x04, 0x00, 0x01, 0x02, 0x00, 0x00, 0x00, 0x00, 0x01, 192,
        0, 2, 1, 0xff, 0xff, 0xff, 0xff, 0xff, 0xff, 192, 0, 2, 5,
    ];
    assert_eq!(body, expected);
}

#[test]
fn response_differs_from_request_in_the_operation_only() {
    let builder = ArpPacketBuilderImpl::new();
    let request = builder.build_request(sender(), target());
    let response = builder.build_response(sender(), target());
    assert_eq!(response.len(), 28);
    assert_eq!(response[7], 2);
    let mut patched = response.clone();
    patched[7] = 1;
    assert_eq!(patched, request);
}

#[test]
fn build_picks_the_operation() {
    let builder = ArpPacketBuilderImpl::new();
    assert_eq!(builder.build(true, sender(), target()), builder.build_request(sender(), target()));
    assert_eq!(
        builder.build(false, sender(), target()),
        builder.build_response(sender(), target())
    );
}

#[test]
fn bodies_equal_those_of_pnet() {
    let builder = ArpPacketBuilderImpl::new();
    assert_eq!(builder.build_request(sender(), target()), pnet_arp(1, sender(), target()));
    assert_eq!(builder.build_response(target(), sender()), pnet_arp(2, target(), sender()));
}

#[test]
fn frame_is_header_then_body() {
    let builder = ArpPacketBuilderImpl::new();
    let body = builder.build_request(sender(), target());
    let frame = builder.wrap_in_ethernet(sender().hw, target().hw, 0x0806, body.clone());
    assert_eq!(frame.len(), 42);
    assert_eq!(&frame[0..6], &[0xff, 0xff, 0xff, 0xff, 0xff, 0xff]);
    assert_eq!(&frame[6..12], &[0x02, 0x00, 0x00, 0x00, 0x00, 0x01]);
    assert_eq!(&frame[12..14], &[0x08, 0x06]);
    assert_eq!(&frame[14..], &body[..]);
}

#[test]
fn frame_equals_that_of_pnet() {
    let builder = ArpPacketBuilderImpl::new();
    let body = builder.build_request(sender(), target());
    let frame = builder.wrap_in_ethernet(sender().hw, target().hw, 0x0806, body.clone());

    let mut buffer = [0u8; 42];
    let mut packet = MutableEthernetPacket::new(&mut buffer).unwrap();
    packet.set_destination(pnet_mac(target().hw));
    packet.set_source(pnet_mac(sender().hw));
    packet.set_ethertype(EtherType::new(0x0806));
    packet.set_payload(&body);
    assert_eq!(frame, packet.packet_mut().to_vec());
}

#[test]
fn frame_keeps_a_payload_of_any_length() {
    let builder = ArpPacketBuilderImpl::new();
    let empty = builder.wrap_in_ethernet(sender().hw, target().hw, 0x0800, Vec::new());
    assert_eq!(empty.len(), 14);
    assert_eq!(&empty[12..14], &[0x08, 0x00]);
    let payload: Vec<u8> = (0..1500u32).map(|i| (i % 251) as u8).collect();
    let full = builder.wrap_in_ethernet(sender().hw, target().hw, 0x86DD, payload.clone());
    assert_eq!(full.len(), 1514);
    assert_eq!(&full[12..14], &[0x86, 0xDD]);
    assert_eq!(&full[14..], &payload[..]);
}

#[test]
fn request_round_trips() {
    let body = ArpPacketBuilderImpl::new().build_request(sender(), target());
    let decoded = ArpPacket::new(&body).unwrap().from_packet();
    assert_eq!(
        decoded,
        Arp {
            hardware_type: 1,
            protocol_type: 0x0800,
            hw_addr_len: 6,
            proto_addr_len: 4,
            operation: 1,
            sender_hw_addr: sender().hw,
            sender_proto_addr: sender().ipv4,
            target_hw_addr: target().hw,
            target_proto_addr: target().ipv4,
        }
    );
}

#[test]
fn response_round_trips_through_a_frame() {
    let builder = ArpPacketBuilderImpl::new();
    let body = builder.build_response(target(), sender());
    let frame = builder.wrap_in_ethernet(target().hw, sender().hw, 0x0806, body);
    let ethernet = EthernetPacket::new(&frame).unwrap();
    assert_eq!(ethernet.get_source(), target().hw);
    assert_eq!(ethernet.get_destination(), sender().hw);
    assert_eq!(ethernet.get_ethertype(), 0x0806);
    let arp = ArpPacket::new(ethernet.payload()).unwrap();
    assert_eq!(arp.get_hardware_type(), 1);
    assert_eq!(arp.get_protocol_type(), 0x0800);
    assert_eq!(arp.get_hw_addr_len(), 6);
    assert_eq!(arp.get_proto_addr_len(), 4);
    assert_eq!(arp.get_operation(), 2);
    assert_eq!(arp.get_sender_hw_addr(), target().hw);
    assert_eq!(arp.get_sender_proto_addr(), target().ipv4);
    assert_eq!(arp.get_target_hw_addr(), sender().hw);
    assert_eq!(arp.get_target_proto_addr(), sender().ipv4);
}

#[test]
fn short_bytes_are_no_packet() {
    assert!(EthernetPacket::new(&[0u8; 13]).is_none());
    assert!(EthernetPacket::new(&[0u8; 14]).is_some());
    assert!(ArpPacket::new(&[0u8; 27]).is_none());
    assert!(ArpPacket::new(&[0u8; 28]).is_some());
    assert_eq!(EthernetPacket::minimum_packet_size(), 14);
    assert_eq!(ArpPacket::minimum_packet_size(), 28);
}

#[test]
fn ethertype_is_read_big_endian() {
    let mut frame = vec![0u8; 20];
    frame[12] = 0x12;
    frame[13] = 0x34;
    let ethernet = EthernetPacket::new(&frame).unwrap();
    assert_eq!(ethernet.get_ethertype(), 0x1234);
    assert_eq!(ethernet.payload().len(), 6);
    assert_eq!(ethernet.packet().len(), 20);
}
