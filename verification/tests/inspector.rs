use blitz::address::{IpAddr, Ipv4Addr, Ipv6Addr, MacAddr};
use blitz::packet::ethernet::EthernetPacket;
use blitz::packet::ipv4::Ipv4Packet;
use blitz::packet::ipv6::Ipv6Packet;
use blitz::packet_inspection::inspector::{Inspection, InspectorImpl, TrafficLogEvent};
use pnet::packet::Packet;

const OWN: MacAddr = MacAddr(0x02, 0x0b, 0, 0, 0, 0x01);
const PEER: MacAddr = MacAddr(0x02, 0x0b, 0, 0, 0, 0x02);
const IGNORED_SOURCE: MacAddr = MacAddr(0x02, 0xaa, 0, 0, 0, 0);
const IGNORED_TARGET: MacAddr = MacAddr(0x02, 0xbb, 0, 0, 0, 0);
const SOMEONE: MacAddr = MacAddr(0x02, 0x01, 0, 0, 0, 0x05);
const SOMEONE_ELSE: MacAddr = MacAddr(0x02, 0x01, 0, 0, 0, 0x06);

fn inspector() -> InspectorImpl {
    InspectorImpl::new("inbound", IGNORED_SOURCE, IGNORED_TARGET, OWN, PEER)
}

fn mac_bytes(m: MacAddr) -> [u8; 6] {
    [m.0, m.1, m.2, m.3, m.4, m.5]
}

fn frame(source: MacAddr, destination: MacAddr, ethertype: u16, payload: &[u8]) -> Vec<u8> {
    let mut out = Vec::new();
    out.extend_from_slice(&mac_bytes(destination));
    out.extend_from_slice(&mac_bytes(source));
    out.extend_from_slice(&ethertype.to_be_bytes());
    out.extend_from_slice(payload);
    out
}

fn ipv4_packet(header_words: u8, total_length: u16, len: usize) -> Vec<u8> {
    let mut packet = vec![0u8; len];
    packet[0] = 0x40 | header_words;
    packet[2..4].copy_from_slice(&total_length.to_be_bytes());
    packet[8] = 64;
    packet[9] = 17;
    packet[12..16].copy_from_slice(&[198, 51, 100, 7]);
    packet[16..20].copy_from_slice(&[203, 0, 113, 9]);
    for (i, b) in packet.iter_mut().enumerate().skip(20) {
        *b = i as u8;
    }
    packet
}

fn ipv6_packet(payload_length: u16, len: usize) -> Vec<u8> {
    let mut packet = vec![0u8; len];
    packet[0] = 0x60;
    packet[4..6].copy_from_slice(&payload_length.to_be_bytes());
    packet[6] = 17;
    packet[7] = 64;
    packet[8..24].copy_from_slice(&[0x20, 0x01, 0x0d, 0xb8, 0, 0, 0, 0, 0, 0, 0, 0, 0, 0, 0, 1]);
    packet[24..40]
        .copy_from_slice(&[0x20, 0x01, 0x0d, 0xb8, 0, 1, 0, 2, 0, 3, 0, 4, 0, 5, 0xab, 0xcd]);
    packet
}

#[test]
fn forward_loop_prevention() {
    let packet = ipv4_packet(5, 48, 48);
    let from_ignored = frame(IGNORED_SOURCE, SOMEONE, 0x0800, &packet);
    assert!(matches!(inspector().process_ethernet_packet(&from_ignored, 1_700_000_000), Inspection::Drop));
}

#[test]
fn frames_to_the_ignored_destination_are_dropped() {
    let packet = ipv4_packet(5, 48, 48);
    let to_ignored = frame(SOMEONE, IGNORED_TARGET, 0x0800, &packet);
    assert!(matches!(inspector().process_ethernet_packet(&to_ignored, 0), Inspection::Drop));
    let arp = frame(SOMEONE, IGNORED_TARGET, 0x0806, &[0u8; 28]);
    assert!(matches!(inspector().process_ethernet_packet(&arp, 0), Inspection::Drop));
}

#[test]
fn the_filters_look_at_their_own_field_only() {
    // the ignored source as a destination, and the ignored destination as a source, pass
    let packet = ipv4_packet(5, 48, 48);
    let crossed = frame(IGNORED_TARGET, IGNORED_SOURCE, 0x0800, &packet);
    assert!(matches!(
        inspector().process_ethernet_packet(&crossed, 0),
        Inspection::Forward { .. }
    ));
}

#[test]
fn ipv4_frame_is_rewritten_and_logged() {
    let packet = ipv4_packet(5, 48, 48);
    let captured = frame(SOMEONE, SOMEONE_ELSE, 0x0800, &packet);
    match inspector().process_ethernet_packet(&captured, 1_700_000_000) {
        Inspection::Forward { frame: sent, event } => {
            assert_eq!(sent, frame(OWN, PEER, 0x0800, &packet));
            assert_eq!(sent.len(), captured.len());
            assert_eq!(
                event,
                Some(TrafficLogEvent {
                    unix_seconds: 1_700_000_000,
                    src_ip: IpAddr::V4(Ipv4Addr::new(198, 51, 100, 7)),
                    dst_ip: IpAddr::V4(Ipv4Addr::new(203, 0, 113, 9)),
                    frame_len: 62,
                    payload_len: 28,
                })
            );
        }
        Inspection::Drop => panic!("an IPv4 frame from elsewhere is forwarded"),
    }
}

#[test]
fn ipv6_frame_is_rewritten_and_logged() {
    let packet = ipv6_packet(24, 64);
    let captured = frame(SOMEONE, SOMEONE_ELSE, 0x86DD, &packet);
    match inspector().process_ethernet_packet(&captured, 42) {
        Inspection::Forward { frame: sent, event } => {
            assert_eq!(sent, frame(OWN, PEER, 0x86DD, &packet));
            assert_eq!(
                event,
                Some(TrafficLogEvent {
                    unix_seconds: 42,
                    src_ip: IpAddr::V6(Ipv6Addr::new(0x2001, 0x0db8, 0, 0, 0, 0, 0, 1)),
                    dst_ip: IpAddr::V6(Ipv6Addr::new(0x2001, 0x0db8, 1, 2, 3, 4, 5, 0xabcd)),
                    frame_len: 78,
                    payload_len: 24,
                })
            );
        }
        Inspection::Drop => panic!("an IPv6 frame from elsewhere is forwarded"),
    }
}

#[test]
fn arp_and_other_frames_pass_without_a_log_entry() {
    for ethertype in [0x0806u16, 0x88cc, 0x0000, 0xffff] {
        let captured = frame(SOMEONE, SOMEONE_ELSE, ethertype, &[7u8; 30]);
        match inspector().process_ethernet_packet(&captured, 1) {
            Inspection::Forward { frame: sent, event } => {
                assert_eq!(sent, frame(OWN, PEER, ethertype, &[7u8; 30]));
                assert_eq!(event, None);
            }
            Inspection::Drop => panic!("a frame of another protocol is forwarded"),
        }
    }
}

#[test]
fn a_frame_of_a_bare_header_is_forwarded() {
    let captured = frame(SOMEONE, SOMEONE_ELSE, 0x0806, &[]);
    match inspector().process_ethernet_packet(&captured, 1) {
        Inspection::Forward { frame: sent, event } => {
            assert_eq!(sent, frame(OWN, PEER, 0x0806, &[]));
            assert_eq!(event, None);
        }
        Inspection::Drop => panic!("a frame of 14 bytes is a frame"),
    }
}

#[test]
fn undecodable_frames_are_dropped() {
    let inspector = inspector();
    assert!(matches!(inspector.process_ethernet_packet(&[], 0), Inspection::Drop));
    assert!(matches!(inspector.process_ethernet_packet(&[0u8; 13], 0), Inspection::Drop));
    let short_v4 = frame(SOMEONE, SOMEONE_ELSE, 0x0800, &[0x45u8; 19]);
    assert!(matches!(inspector.process_ethernet_packet(&short_v4, 0), Inspection::Drop));
    let short_v6 = frame(SOMEONE, SOMEONE_ELSE, 0x86DD, &[0x60u8; 39]);
    assert!(matches!(inspector.process_ethernet_packet(&short_v6, 0), Inspection::Drop));
    let too_long = frame(SOMEONE, SOMEONE_ELSE, 0x0806, &[0u8; 1501]);
    assert!(matches!(inspector.process_ethernet_packet(&too_long, 0), Inspection::Drop));
    let longest = frame(SOMEONE, SOMEONE_ELSE, 0x0806, &[0u8; 1500]);
    assert!(matches!(
        inspector.process_ethernet_packet(&longest, 0),
        Inspection::Forward { .. }
    ));
}

#[test]
fn metadata_of_single_packets() {
    let inspector = inspector();
    let v4 = frame(SOMEONE, SOMEONE_ELSE, 0x0800, &ipv4_packet(5, 20, 20));
    let event = inspector.process_ipv4_packet(&v4, 9).unwrap();
    assert_eq!(event.frame_len, 34);
    assert_eq!(event.payload_len, 0);
    assert_eq!(inspector.process_ipv4_packet(&v4[..33], 9), None);
    assert_eq!(inspector.process_ipv4_packet(&[0u8; 2000], 9), None);
    let v6 = frame(SOMEONE, SOMEONE_ELSE, 0x86DD, &ipv6_packet(0, 40));
    let event = inspector.process_ipv6_packet(&v6, 9).unwrap();
    assert_eq!(event.frame_len, 54);
    assert_eq!(event.payload_len, 0);
    assert_eq!(inspector.process_ipv6_packet(&v6[..53], 9), None);
    assert_eq!(inspector.tag(), "inbound");
}

#[test]
fn ipv4_payload_is_what_pnet_finds() {
    let cases: Vec<(u8, u16, usize)> = vec![
        (5, 48, 48),
        (5, 20, 20),
        (5, 40, 100),
        (5, 100, 40),
        (5, 0, 60),
        (5, 10, 60),
        (6, 60, 60),
        (15, 200, 200),
        (15, 61, 64),
        (15, 100, 30),
        (0, 30, 30),
        (3, 30, 30),
        (3, 8, 30),
        (8, 32, 32),
        (8, 33, 32),
        (5, 65535, 1500),
    ];
    for (header_words, total_length, len) in cases {
        let bytes = ipv4_packet(header_words, total_length, len);
        let ours = Ipv4Packet::new(&bytes).unwrap();
        let theirs = pnet::packet::ipv4::Ipv4Packet::new(&bytes).unwrap();
        assert_eq!(ours.payload(), theirs.payload());
        assert_eq!(ours.get_header_length(), theirs.get_header_length());
        assert_eq!(ours.get_total_length(), theirs.get_total_length());
        assert_eq!(ours.get_version(), theirs.get_version());
        assert_eq!(ours.get_next_level_protocol(), theirs.get_next_level_protocol().0);
        assert_eq!(ours.get_source(), Ipv4Addr::new(198, 51, 100, 7));
        assert_eq!(theirs.get_source().octets(), [198, 51, 100, 7]);
        assert_eq!(ours.get_destination(), Ipv4Addr::new(203, 0, 113, 9));
        assert_eq!(theirs.get_destination().octets(), [203, 0, 113, 9]);
        assert_eq!(ours.packet(), &bytes[..]);
    }
    assert!(Ipv4Packet::new(&[0u8; 19]).is_none());
    assert_eq!(Ipv4Packet::minimum_packet_size(), 20);
}

#[test]
fn ipv6_payload_is_what_pnet_finds() {
    for (payload_length, len) in [(24u16, 64usize), (0, 40), (0, 64), (100, 64), (10, 64), (65535, 41)] {
        let bytes = ipv6_packet(payload_length, len);
        let ours = Ipv6Packet::new(&bytes).unwrap();
        let theirs = pnet::packet::ipv6::Ipv6Packet::new(&bytes).unwrap();
        assert_eq!(ours.payload(), theirs.payload());
        assert_eq!(ours.get_payload_length(), theirs.get_payload_length());
        assert_eq!(ours.get_version(), theirs.get_version());
        assert_eq!(ours.get_next_header(), theirs.get_next_header().0);
        let s = ours.get_source();
        assert_eq!([s.0, s.1, s.2, s.3, s.4, s.5, s.6, s.7], theirs.get_source().segments());
        let d = ours.get_destination();
        assert_eq!(
            [d.0, d.1, d.2, d.3, d.4, d.5, d.6, d.7],
            theirs.get_destination().segments()
        );
        assert_eq!(ours.packet(), &bytes[..]);
    }
    assert!(Ipv6Packet::new(&[0u8; 39]).is_none());
    assert_eq!(Ipv6Packet::minimum_packet_size(), 40);
}

#[test]
fn ethernet_view_is_what_pnet_finds() {
    let captured = frame(SOMEONE, SOMEONE_ELSE, 0x86DD, &[1, 2, 3]);
    let ours = EthernetPacket::new(&captured).unwrap();
    let theirs = pnet::packet::ethernet::EthernetPacket::new(&captured).unwrap();
    assert_eq!(ours.payload(), theirs.payload());
    assert_eq!(ours.get_ethertype(), theirs.get_ethertype().0);
    assert_eq!(mac_bytes(ours.get_source()), theirs.get_source().octets());
    assert_eq!(mac_bytes(ours.get_destination()), theirs.get_destination().octets());
}
