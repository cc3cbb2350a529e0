//! One direction of the forwarding pipeline.
//!
//! For each captured frame the inspector decides whether it is dropped or
//! forwarded, what the forwarded frame is, and which traffic metadata is
//! logged. It performs neither the transmission nor the logging.

use crate::address::{IpAddr, MacAddr};
use crate::arp::packet_builder::{ArpPacketBuilder, ArpPacketBuilderImpl};
use crate::packet::ethernet::{
    ethernet_frame, frame_destination, frame_ethertype, frame_payload, frame_source,
    lemma_ethernet_round_trip, EthernetPacket, ETHERNET_MAX_FRAME_LEN, ETHERTYPE_IPV4,
    ETHERTYPE_IPV6,
};
use crate::packet::ipv4::{ipv4_destination, ipv4_payload, ipv4_source, Ipv4Packet};
use crate::packet::ipv6::{ipv6_destination, ipv6_payload, ipv6_source, Ipv6Packet};
use vstd::prelude::*;
use vstd::slice::slice_to_vec;

verus! {

/// Metadata of one forwarded IP packet, before name resolution.
#[derive(Clone, Copy, Debug, PartialEq, Eq, Structural)]
pub struct TrafficLogEvent {
    /// When the frame was inspected, in seconds since the Unix epoch.
    pub unix_seconds: i64,
    pub src_ip: IpAddr,
    pub dst_ip: IpAddr,
    /// Length of the whole frame.
    pub frame_len: i64,
    /// Length of the payload of the IP packet.
    pub payload_len: i64,
}

/// What becomes of a captured frame.
#[derive(Debug)]
pub enum Inspection {
    /// The frame is not forwarded and nothing is logged.
    Drop,
    /// `frame` is submitted to the opposite side, and `event`, if there is
    /// one, is posted to the traffic log.
    Forward { frame: Vec<u8>, event: Option<TrafficLogEvent> },
}

/// An `Inspection` with its frame as a byte sequence.
pub enum InspectionView {
    Drop,
    Forward { frame: Seq<u8>, event: Option<TrafficLogEvent> },
}

impl View for Inspection {
    type V = InspectionView;

    open spec fn view(&self) -> InspectionView {
        match *self {
            Inspection::Drop => InspectionView::Drop,
            Inspection::Forward { frame, event } => InspectionView::Forward { frame: frame@, event },
        }
    }
}

/// Whether `frame` has a length the pipeline handles: a whole header and at
/// most 1500 bytes after it.
pub open spec fn is_frame(frame: Seq<u8>) -> bool {
    14 <= frame.len() <= 1514
}

/// The metadata of a frame that carries an IPv4 packet with a whole header.
pub open spec fn ipv4_traffic(frame: Seq<u8>, now: i64) -> Option<TrafficLogEvent> {
    if is_frame(frame) && frame_payload(frame).len() >= 20 {
        Some(
            TrafficLogEvent {
                unix_seconds: now,
                src_ip: IpAddr::V4(ipv4_source(frame_payload(frame))),
                dst_ip: IpAddr::V4(ipv4_destination(frame_payload(frame))),
                frame_len: frame.len() as i64,
                payload_len: ipv4_payload(frame_payload(frame)).len() as i64,
            },
        )
    } else {
        None
    }
}

/// The metadata of a frame that carries an IPv6 packet with a whole header.
pub open spec fn ipv6_traffic(frame: Seq<u8>, now: i64) -> Option<TrafficLogEvent> {
    if is_frame(frame) && frame_payload(frame).len() >= 40 {
        Some(
            TrafficLogEvent {
                unix_seconds: now,
                src_ip: IpAddr::V6(ipv6_source(frame_payload(frame))),
                dst_ip: IpAddr::V6(ipv6_destination(frame_payload(frame))),
                frame_len: frame.len() as i64,
                payload_len: ipv6_payload(frame_payload(frame)).len() as i64,
            },
        )
    } else {
        None
    }
}

/// The frame that is sent on for `frame`: the same ethertype and payload
/// behind a header from `own_mac` to `peer_mac`.
pub open spec fn rewritten(frame: Seq<u8>, own_mac: MacAddr, peer_mac: MacAddr) -> Seq<u8> {
    ethernet_frame(own_mac, peer_mac, frame_ethertype(frame), frame_payload(frame))
}

/// Filters and rewrites the frames of one direction.
pub struct InspectorImpl {
    tag: &'static str,
    ignore_source_mac_address: MacAddr,
    ignore_target_mac_address: MacAddr,
    own_interface_mac: MacAddr,
    peer_side_mac: MacAddr,
}

impl InspectorImpl {
    /// The name of the direction.
    pub closed spec fn tag_text(&self) -> Seq<char> {
        self.tag@
    }

    /// Frames from this address are not forwarded.
    pub closed spec fn ignore_source(&self) -> MacAddr {
        self.ignore_source_mac_address
    }

    /// Frames to this address are not forwarded.
    pub closed spec fn ignore_target(&self) -> MacAddr {
        self.ignore_target_mac_address
    }

    /// Source address of every forwarded frame.
    pub closed spec fn own_mac(&self) -> MacAddr {
        self.own_interface_mac
    }

    /// Destination address of every forwarded frame.
    pub closed spec fn peer_mac(&self) -> MacAddr {
        self.peer_side_mac
    }

    /// Whether `frame` is one the pipeline sent itself, or is addressed to
    /// the pipeline.
    pub open spec fn is_ignored(&self, frame: Seq<u8>) -> bool {
        frame_source(frame) == self.ignore_source() || frame_destination(frame)
            == self.ignore_target()
    }

    /// What becomes of `frame` when it is inspected at time `now`.
    ///
    /// A frame of a length the pipeline does not handle is dropped, and so
    /// is one that the filters name. An IPv4 or IPv6 frame is forwarded and
    /// logged if its IP header is whole, and dropped if it is not. Any
    /// other frame is forwarded without a log entry.
    pub open spec fn inspection(&self, frame: Seq<u8>, now: i64) -> InspectionView {
        if !is_frame(frame) || self.is_ignored(frame) {
            InspectionView::Drop
        } else if frame_ethertype(frame) == 0x0800 {
            match ipv4_traffic(frame, now) {
                Some(event) => InspectionView::Forward {
                    frame: rewritten(frame, self.own_mac(), self.peer_mac()),
                    event: Some(event),
                },
                None => InspectionView::Drop,
            }
        } else if frame_ethertype(frame) == 0x86DD {
            match ipv6_traffic(frame, now) {
                Some(event) => InspectionView::Forward {
                    frame: rewritten(frame, self.own_mac(), self.peer_mac()),
                    event: Some(event),
                },
                None => InspectionView::Drop,
            }
        } else {
            InspectionView::Forward {
                frame: rewritten(frame, self.own_mac(), self.peer_mac()),
                event: None,
            }
        }
    }

    /// An inspector that drops frames from `ignore_source_mac_address` and
    /// frames to `ignore_target_mac_address`, and forwards the others from
    /// `own_interface_mac` to `peer_side_mac`.
    pub fn new(
        tag: &'static str,
        ignore_source_mac_address: MacAddr,
        ignore_target_mac_address: MacAddr,
        own_interface_mac: MacAddr,
        peer_side_mac: MacAddr,
    ) -> (r: InspectorImpl)
        ensures
            r.tag_text() == tag@,
            r.ignore_source() == ignore_source_mac_address,
            r.ignore_target() == ignore_target_mac_address,
            r.own_mac() == own_interface_mac,
            r.peer_mac() == peer_side_mac,
    {
        InspectorImpl {
            tag,
            ignore_source_mac_address,
            ignore_target_mac_address,
            own_interface_mac,
            peer_side_mac,
        }
    }

    /// The name of the direction, for log lines.
    pub fn tag(&self) -> (r: &'static str)
        ensures
            r@ == self.tag_text(),
    {
        self.tag
    }

    /// Decides what becomes of `packet`, captured at time `now`.
    pub fn process_ethernet_packet(&self, packet: &[u8], now: i64) -> (r: Inspection)
        ensures
            r@ == self.inspection(packet@, now),
            r is Forward ==> !self.is_ignored(packet@),
    {
        if packet.len() > ETHERNET_MAX_FRAME_LEN {
            return Inspection::Drop;
        }
        let ethernet = match EthernetPacket::new(packet) {
            Some(ethernet) => ethernet,
            None => {
                return Inspection::Drop;
            },
        };
        let source = ethernet.get_source();
        let target = ethernet.get_destination();
        if source == self.ignore_source_mac_address || target == self.ignore_target_mac_address {
            return Inspection::Drop;
        }
        let ether_type = ethernet.get_ethertype();
        let event = if ether_type == ETHERTYPE_IPV4 {
            match self.process_ipv4_packet(packet, now) {
                Some(event) => Some(event),
                None => {
                    return Inspection::Drop;
                },
            }
        } else if ether_type == ETHERTYPE_IPV6 {
            match self.process_ipv6_packet(packet, now) {
                Some(event) => Some(event),
                None => {
                    return Inspection::Drop;
                },
            }
        } else {
            None
        };
        let builder = ArpPacketBuilderImpl::new();
        let frame = builder.wrap_in_ethernet(
            self.own_interface_mac,
            self.peer_side_mac,
            ether_type,
            slice_to_vec(ethernet.payload()),
        );
        Inspection::Forward { frame, event }
    }

    /// The metadata of `packet` if it is a frame with a whole IPv4 header.
    pub fn process_ipv4_packet(&self, packet: &[u8], now: i64) -> (r: Option<TrafficLogEvent>)
        ensures
            r == ipv4_traffic(packet@, now),
    {
        if packet.len() > ETHERNET_MAX_FRAME_LEN {
            return None;
        }
        let ethernet = match EthernetPacket::new(packet) {
            Some(ethernet) => ethernet,
            None => {
                return None;
            },
        };
        match Ipv4Packet::new(ethernet.payload()) {
            Some(ipv4_packet) => {
                let payload = ipv4_packet.payload();
                Some(
                    TrafficLogEvent {
                        unix_seconds: now,
                        src_ip: IpAddr::V4(ipv4_packet.get_source()),
                        dst_ip: IpAddr::V4(ipv4_packet.get_destination()),
                        frame_len: packet.len() as i64,
                        payload_len: payload.len() as i64,
                    },
                )
            },
            None => None,
        }
    }

    /// The metadata of `packet` if it is a frame with a whole IPv6 header.
    pub fn process_ipv6_packet(&self, packet: &[u8], now: i64) -> (r: Option<TrafficLogEvent>)
        ensures
            r == ipv6_traffic(packet@, now),
    {
        if packet.len() > ETHERNET_MAX_FRAME_LEN {
            return None;
        }
        let ethernet = match EthernetPacket::new(packet) {
            Some(ethernet) => ethernet,
            None => {
                return None;
            },
        };
        match Ipv6Packet::new(ethernet.payload()) {
            Some(ipv6_packet) => {
                let payload = ipv6_packet.payload();
                Some(
                    TrafficLogEvent {
                        unix_seconds: now,
                        src_ip: IpAddr::V6(ipv6_packet.get_source()),
                        dst_ip: IpAddr::V6(ipv6_packet.get_destination()),
                        frame_len: packet.len() as i64,
                        payload_len: payload.len() as i64,
                    },
                )
            },
            None => None,
        }
    }
}

/// No forwarded frame comes from the ignored source or goes to the ignored
/// destination; and what is forwarded keeps the ethertype and the payload
/// of the captured frame, with the inspector's own addresses in the header.
pub proof fn lemma_forwarded_frames(inspector: InspectorImpl, frame: Seq<u8>, now: i64)
    requires
        inspector.inspection(frame, now) is Forward,
    ensures
        frame_source(frame) != inspector.ignore_source(),
        frame_destination(frame) != inspector.ignore_target(),
        ({
            let sent = inspector.inspection(frame, now)->Forward_frame;
            &&& sent.len() == frame.len()
            &&& frame_source(sent) == inspector.own_mac()
            &&& frame_destination(sent) == inspector.peer_mac()
            &&& frame_ethertype(sent) == frame_ethertype(frame)
            &&& frame_payload(sent) == frame_payload(frame)
        }),
{
    lemma_ethernet_round_trip(
        inspector.own_mac(),
        inspector.peer_mac(),
        frame_ethertype(frame),
        frame_payload(frame),
    );
}

/// A frame that the filters name is dropped, and nothing is logged for it.
pub proof fn lemma_ignored_frames_are_dropped(inspector: InspectorImpl, frame: Seq<u8>, now: i64)
    requires
        inspector.is_ignored(frame),
    ensures
        inspector.inspection(frame, now) is Drop,
{
}

} // verus!
