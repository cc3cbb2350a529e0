//! Reading the answers to a query out of captured frames.

use crate::address::{Ipv4Addr, MacAddr};
use crate::arp::network_location::NetworkLocation;
use crate::arp::query::correlation::{
    all_resolved, arp_announcement, frames_view, observe, observe_all, query_response,
};
use crate::arp::query::query_result::ArpQueryResult;
use crate::arp::query::query_sender::contains_address;
use crate::packet::arp::ArpPacket;
use crate::packet::ethernet::{EthernetPacket, ETHERTYPE_ARP};
use vstd::prelude::*;

verus! {

/// What `frame` announces, if it is an ARP frame with a whole body.
pub fn read_announcement(frame: &[u8]) -> (r: Option<(Ipv4Addr, MacAddr)>)
    ensures
        r == arp_announcement(frame@),
{
    match EthernetPacket::new(frame) {
        Some(packet) => {
            if packet.get_ethertype() != ETHERTYPE_ARP {
                return None;
            }
            match ArpPacket::new(packet.payload()) {
                Some(arp_packet) => {
                    let sender_hw_address = arp_packet.get_sender_hw_addr();
                    let sender_proto_address = arp_packet.get_sender_proto_addr();
                    Some((sender_proto_address, sender_hw_address))
                },
                None => None,
            }
        },
        None => None,
    }
}

/// Whether every address of `addresses` has an entry in `result`.
pub fn all_answered(addresses: &[Ipv4Addr], result: &ArpQueryResult) -> (r: bool)
    ensures
        r == all_resolved(result@, addresses@),
{
    let mut i: usize = 0;
    while i < addresses.len()
        invariant
            i <= addresses@.len(),
            forall|j: int| 0 <= j < i ==> result@.contains_key(#[trigger] addresses@[j]),
        decreases addresses@.len() - i,
    {
        if !result.contains(addresses[i]) {
            return false;
        }
        i += 1;
    }
    true
}

/// Picks the answers to a query out of the capture stream.
pub struct ArpQueryListenerImpl {
    current_location: NetworkLocation,
}

impl ArpQueryListenerImpl {
    /// The location the query was sent from.
    pub closed spec fn location(&self) -> NetworkLocation {
        self.current_location
    }

    pub fn new(location: NetworkLocation) -> (r: ArpQueryListenerImpl)
        ensures
            r.location() == location,
    {
        ArpQueryListenerImpl { current_location: location }
    }

    /// The sender of an ARP frame, if the frame is about one of `all_ips`;
    /// `Err` for any other frame.
    pub fn process_query_response(&self, packet: &[u8], all_ips: &[Ipv4Addr]) -> (r: Result<
        (Ipv4Addr, MacAddr),
        (),
    >)
        ensures
            r == match query_response(packet@, all_ips@) {
                Some(found) => Ok::<(Ipv4Addr, MacAddr), ()>(found),
                None => Err::<(Ipv4Addr, MacAddr), ()>(()),
            },
    {
        match read_announcement(packet) {
            Some((sender_proto_address, sender_hw_address)) => {
                if contains_address(all_ips, sender_proto_address) {
                    Ok((sender_proto_address, sender_hw_address))
                } else {
                    Err(())
                }
            },
            None => Err(()),
        }
    }

    /// Takes one captured frame into `result`: the first answer for a
    /// requested address is recorded, everything else is ignored.
    pub fn listen_for_one(&self, addresses: &[Ipv4Addr], result: &mut ArpQueryResult, frame: &[u8])
        ensures
            final(result)@ == observe(old(result)@, addresses@, frame@),
    {
        match self.process_query_response(frame, addresses) {
            Ok((ipv4, mac_addr)) => {
                if !result.contains(ipv4) {
                    result.insert(ipv4, mac_addr);
                }
            },
            Err(_) => {},
        }
    }

    /// Takes a run of captured frames into `result`, in capture order, and
    /// says whether every address of `addresses` then has an answer.
    pub fn listen_for(
        &self,
        addresses: &[Ipv4Addr],
        result: &mut ArpQueryResult,
        frames: &Vec<Vec<u8>>,
    ) -> (done: bool)
        ensures
            final(result)@ == observe_all(old(result)@, addresses@, frames_view(frames@)),
            done == all_resolved(final(result)@, addresses@),
    {
        let mut i: usize = 0;
        while i < frames.len()
            invariant
                i <= frames@.len(),
                result@ == observe_all(
                    old(result)@,
                    addresses@,
                    frames_view(frames@).subrange(0, i as int),
                ),
            decreases frames@.len() - i,
        {
            proof {
                let seen = frames_view(frames@).subrange(0, i + 1);
                assert(seen.drop_last() =~= frames_view(frames@).subrange(0, i as int));
                assert(seen.last() == frames@[i as int]@);
            }
            self.listen_for_one(addresses, result, frames[i].as_slice());
            i += 1;
        }
        proof {
            assert(frames_view(frames@).subrange(0, frames@.len() as int) =~= frames_view(
                frames@,
            ));
        }
        all_answered(addresses, result)
    }
}

} // verus!
