//! The request frames of a query.

use crate::address::{Ipv4Addr, MacAddr};
use crate::arp::network_location::NetworkLocation;
use crate::arp::packet_builder::{ArpPacketBuilder, ArpPacketBuilderImpl};
use crate::arp::query::correlation::{distinct, query_frame};
use crate::packet::ethernet::ETHERTYPE_ARP;
use vstd::prelude::*;

verus! {

/// Whether `ip` occurs in `addresses`.
pub fn contains_address(addresses: &[Ipv4Addr], ip: Ipv4Addr) -> (r: bool)
    ensures
        r == addresses@.contains(ip),
{
    let mut i: usize = 0;
    while i < addresses.len()
        invariant
            i <= addresses@.len(),
            forall|j: int| 0 <= j < i ==> addresses@[j] != ip,
        decreases addresses@.len() - i,
    {
        if addresses[i] == ip {
            return true;
        }
        i += 1;
    }
    false
}

/// The addresses of `all_ips` in order of first occurrence, each once.
pub fn distinct_addresses(all_ips: &Vec<Ipv4Addr>) -> (r: Vec<Ipv4Addr>)
    ensures
        r@ == distinct(all_ips@),
{
    let mut out: Vec<Ipv4Addr> = Vec::new();
    let mut i: usize = 0;
    while i < all_ips.len()
        invariant
            i <= all_ips@.len(),
            out@ == distinct(all_ips@.subrange(0, i as int)),
        decreases all_ips@.len() - i,
    {
        let ip = all_ips[i];
        proof {
            assert(all_ips@.subrange(0, i + 1).drop_last() =~= all_ips@.subrange(0, i as int));
        }
        if !contains_address(out.as_slice(), ip) {
            out.push(ip);
        }
        i += 1;
    }
    proof {
        assert(all_ips@.subrange(0, all_ips@.len() as int) =~= all_ips@);
    }
    out
}

/// Builds the request frames that a query puts on the wire.
pub struct ArpQuerySenderImpl {
    current_location: NetworkLocation,
}

impl ArpQuerySenderImpl {
    /// The location the requests are sent from.
    pub closed spec fn location(&self) -> NetworkLocation {
        self.current_location
    }

    pub fn new(location: NetworkLocation) -> (r: ArpQuerySenderImpl)
        ensures
            r.location() == location,
    {
        ArpQuerySenderImpl { current_location: location }
    }

    /// The frame that asks who has `ipv4`.
    pub fn make_query_packet(&self, ipv4: Ipv4Addr) -> (r: Vec<u8>)
        ensures
            r@ == query_frame(self.location(), ipv4),
    {
        let builder = ArpPacketBuilderImpl::new();
        let target = NetworkLocation { ipv4, hw: MacAddr::broadcast() };
        let arp_request = builder.build_request(self.current_location, target);
        builder.wrap_in_ethernet(self.current_location.hw, target.hw, ETHERTYPE_ARP, arp_request)
    }

    /// The frames to send for `all_ips`, in order: one for each address,
    /// however often it was named.
    pub fn query_multiple(&self, all_ips: Vec<Ipv4Addr>) -> (r: Vec<Vec<u8>>)
        ensures
            r@.len() == distinct(all_ips@).len(),
            forall|i: int|
                0 <= i < r@.len() ==> (#[trigger] r@[i])@ == query_frame(
                    self.location(),
                    distinct(all_ips@)[i],
                ),
    {
        let targets = distinct_addresses(&all_ips);
        self.frames_for(&targets)
    }

    /// The frame to send for one address.
    pub fn query(&self, ipv4: Ipv4Addr) -> (r: Vec<Vec<u8>>)
        ensures
            r@.len() == 1,
            r@[0]@ == query_frame(self.location(), ipv4),
    {
        let mut out: Vec<Vec<u8>> = Vec::new();
        out.push(self.make_query_packet(ipv4));
        out
    }

    /// One request frame per entry of `targets`, in order.
    pub fn frames_for(&self, targets: &Vec<Ipv4Addr>) -> (r: Vec<Vec<u8>>)
        ensures
            r@.len() == targets@.len(),
            forall|i: int|
                0 <= i < r@.len() ==> (#[trigger] r@[i])@ == query_frame(
                    self.location(),
                    targets@[i],
                ),
    {
        let mut out: Vec<Vec<u8>> = Vec::new();
        let mut i: usize = 0;
        while i < targets.len()
            invariant
                i <= targets@.len(),
                out@.len() == i,
                forall|j: int|
                    0 <= j < i ==> (#[trigger] out@[j])@ == query_frame(
                        self.location(),
                        targets@[j],
                    ),
            decreases targets@.len() - i,
        {
            out.push(self.make_query_packet(targets[i]));
            i += 1;
        }
        out
    }
}

} // verus!
