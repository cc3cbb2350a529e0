//! What the query engine sends and how it reads what comes back, stated
//! over byte sequences, with the laws that follow.

use crate::address::{Ipv4Addr, MacAddr};
use crate::arp::network_location::NetworkLocation;
use crate::arp::packet_builder::{arp_message, arp_request, lemma_framed_arp_round_trip};
use crate::packet::arp::arp_decode;
use crate::packet::ethernet::{ethernet_frame, frame_ethertype, frame_payload};
use vstd::prelude::*;

verus! {

/// The target of a request for `ip`: its hardware address is not known yet,
/// so the broadcast address stands in for it.
pub open spec fn query_target(ip: Ipv4Addr) -> NetworkLocation {
    NetworkLocation { ipv4: ip, hw: MacAddr::spec_broadcast() }
}

/// The frame that asks the LAN who has `ip`: from the local hardware
/// address to broadcast, ethertype ARP, carrying a request from the local
/// location for `ip`.
pub open spec fn query_frame(local: NetworkLocation, ip: Ipv4Addr) -> Seq<u8> {
    ethernet_frame(
        local.hw,
        MacAddr::spec_broadcast(),
        0x0806,
        arp_request(local, query_target(ip)),
    )
}

/// What a captured frame says about who has which address: the sender's
/// protocol and hardware address of an ARP frame whose body can be decoded,
/// and nothing for any other frame.
pub open spec fn arp_announcement(frame: Seq<u8>) -> Option<(Ipv4Addr, MacAddr)> {
    if frame.len() >= 14 && frame_ethertype(frame) == 0x0806 && frame_payload(frame).len() >= 28 {
        Some(
            (
                arp_decode(frame_payload(frame)).sender_proto_addr,
                arp_decode(frame_payload(frame)).sender_hw_addr,
            ),
        )
    } else {
        None
    }
}

/// The announcement of `frame` if it is about one of `all_ips`.
pub open spec fn query_response(frame: Seq<u8>, all_ips: Seq<Ipv4Addr>) -> Option<
    (Ipv4Addr, MacAddr),
> {
    match arp_announcement(frame) {
        Some((ip, mac)) => if all_ips.contains(ip) {
            Some((ip, mac))
        } else {
            None
        },
        None => None,
    }
}

/// The mapping after one captured frame: an answer for a requested address
/// that has none yet is recorded; every other frame changes nothing.
pub open spec fn observe(
    resolved: Map<Ipv4Addr, MacAddr>,
    targets: Seq<Ipv4Addr>,
    frame: Seq<u8>,
) -> Map<Ipv4Addr, MacAddr> {
    match query_response(frame, targets) {
        Some((ip, mac)) => if resolved.contains_key(ip) {
            resolved
        } else {
            resolved.insert(ip, mac)
        },
        None => resolved,
    }
}

/// The mapping after a run of captured frames, in capture order.
pub open spec fn observe_all(
    resolved: Map<Ipv4Addr, MacAddr>,
    targets: Seq<Ipv4Addr>,
    frames: Seq<Seq<u8>>,
) -> Map<Ipv4Addr, MacAddr>
    decreases frames.len(),
{
    if frames.len() == 0 {
        resolved
    } else {
        observe(observe_all(resolved, targets, frames.drop_last()), targets, frames.last())
    }
}

/// Whether every requested address has an answer.
pub open spec fn all_resolved(resolved: Map<Ipv4Addr, MacAddr>, targets: Seq<Ipv4Addr>) -> bool {
    forall|i: int| 0 <= i < targets.len() ==> resolved.contains_key(#[trigger] targets[i])
}

/// The addresses of `all_ips` in order of first occurrence, each once.
pub open spec fn distinct(all_ips: Seq<Ipv4Addr>) -> Seq<Ipv4Addr>
    decreases all_ips.len(),
{
    if all_ips.len() == 0 {
        Seq::empty()
    } else if distinct(all_ips.drop_last()).contains(all_ips.last()) {
        distinct(all_ips.drop_last())
    } else {
        distinct(all_ips.drop_last()).push(all_ips.last())
    }
}

/// The byte sequences of a list of frames.
pub open spec fn frames_view(frames: Seq<Vec<u8>>) -> Seq<Seq<u8>> {
    frames.map_values(|f: Vec<u8>| f@)
}

/// `distinct` keeps exactly the addresses of its argument and repeats none.
pub proof fn lemma_distinct(all_ips: Seq<Ipv4Addr>)
    ensures
        distinct(all_ips).no_duplicates(),
        distinct(all_ips).len() <= all_ips.len(),
        forall|ip: Ipv4Addr|
            #![trigger distinct(all_ips).contains(ip)]
            #![trigger all_ips.contains(ip)]
            distinct(all_ips).contains(ip) <==> all_ips.contains(ip),
    decreases all_ips.len(),
{
    if all_ips.len() > 0 {
        let init = all_ips.drop_last();
        let last = all_ips.last();
        lemma_distinct(init);
        let d = distinct(init);
        assert forall|ip: Ipv4Addr|
            #![trigger distinct(all_ips).contains(ip)]
            #![trigger all_ips.contains(ip)]
            distinct(all_ips).contains(ip) <==> all_ips.contains(ip) by {
            if distinct(all_ips).contains(ip) {
                let i = choose|i: int|
                    0 <= i < distinct(all_ips).len() && distinct(all_ips)[i] == ip;
                if i < d.len() {
                    assert(d[i] == ip);
                    assert(d.contains(ip));
                    let j = choose|j: int| 0 <= j < init.len() && init[j] == ip;
                    assert(all_ips[j] == ip);
                } else {
                    assert(all_ips[all_ips.len() - 1] == ip);
                }
            }
            if all_ips.contains(ip) {
                let j = choose|j: int| 0 <= j < all_ips.len() && all_ips[j] == ip;
                if j < init.len() {
                    assert(init[j] == ip);
                    assert(init.contains(ip));
                    let i = choose|i: int| 0 <= i < d.len() && d[i] == ip;
                    assert(distinct(all_ips)[i] == ip);
                } else if d.contains(last) {
                } else {
                    assert(distinct(all_ips)[d.len() as int] == ip);
                }
            }
        }
    }
}

/// A request frame names the address it asks for, so the frames for two
/// different addresses differ.
pub proof fn lemma_query_frame_names_target(local: NetworkLocation, ip: Ipv4Addr)
    ensures
        query_frame(local, ip).len() == 42,
        frame_ethertype(query_frame(local, ip)) == 0x0806,
        arp_decode(frame_payload(query_frame(local, ip))) == arp_message(
            1,
            local,
            query_target(ip),
        ),
        arp_decode(frame_payload(query_frame(local, ip))).target_proto_addr == ip,
{
    lemma_framed_arp_round_trip(
        1,
        local,
        query_target(ip),
        local.hw,
        MacAddr::spec_broadcast(),
        0x0806,
    );
}

/// For every address that was asked for, exactly one of the request
/// frames built for the distinct addresses asks for it.
pub proof fn lemma_one_request_per_address(
    local: NetworkLocation,
    all_ips: Seq<Ipv4Addr>,
    ip: Ipv4Addr,
)
    requires
        all_ips.contains(ip),
    ensures
        exists|i: int|
            0 <= i < distinct(all_ips).len() && #[trigger] query_frame(local, distinct(all_ips)[i])
                == query_frame(local, ip) && forall|j: int|
                0 <= j < distinct(all_ips).len() && j != i ==> #[trigger] query_frame(
                    local,
                    distinct(all_ips)[j],
                ) != query_frame(local, ip),
{
    lemma_distinct(all_ips);
    let d = distinct(all_ips);
    assert(d.contains(ip));
    let i = choose|i: int| 0 <= i < d.len() && d[i] == ip;
    assert forall|j: int| 0 <= j < d.len() && j != i implies #[trigger] query_frame(local, d[j])
        != query_frame(local, ip) by {
        lemma_query_frame_names_target(local, d[j]);
        lemma_query_frame_names_target(local, ip);
    }
    assert(query_frame(local, d[i]) == query_frame(local, ip));
}

/// One frame adds at most one entry, keeps every entry there was, and adds
/// only what the frame itself announces about a requested address.
pub proof fn lemma_observe(
    resolved: Map<Ipv4Addr, MacAddr>,
    targets: Seq<Ipv4Addr>,
    frame: Seq<u8>,
    ip: Ipv4Addr,
)
    ensures
        resolved.contains_key(ip) ==> observe(resolved, targets, frame).contains_key(ip) && observe(
            resolved,
            targets,
            frame,
        )[ip] == resolved[ip],
        observe(resolved, targets, frame).contains_key(ip) && !resolved.contains_key(ip)
            ==> targets.contains(ip) && arp_announcement(frame) == Some(
            (ip, observe(resolved, targets, frame)[ip]),
        ),
{
}

/// Every entry of the mapping after a run of frames was either there
/// before, unchanged, or is for a requested address and was announced by
/// one of the frames of the run: an ARP frame whose sender protocol address
/// is the entry's address and whose sender hardware address is the entry's
/// hardware address.
pub proof fn lemma_resolved_was_observed(
    resolved: Map<Ipv4Addr, MacAddr>,
    targets: Seq<Ipv4Addr>,
    frames: Seq<Seq<u8>>,
    ip: Ipv4Addr,
)
    requires
        observe_all(resolved, targets, frames).contains_key(ip),
    ensures
        (resolved.contains_key(ip) && observe_all(resolved, targets, frames)[ip] == resolved[ip])
            || (targets.contains(ip) && exists|i: int|
            0 <= i < frames.len() && #[trigger] arp_announcement(frames[i]) == Some(
                (ip, observe_all(resolved, targets, frames)[ip]),
            )),
    decreases frames.len(),
{
    if frames.len() > 0 {
        let before = observe_all(resolved, targets, frames.drop_last());
        let after = observe_all(resolved, targets, frames);
        lemma_observe(before, targets, frames.last(), ip);
        if before.contains_key(ip) {
            lemma_resolved_was_observed(resolved, targets, frames.drop_last(), ip);
            if !(resolved.contains_key(ip) && before[ip] == resolved[ip]) {
                let i = choose|i: int|
                    0 <= i < frames.drop_last().len() && #[trigger] arp_announcement(
                        frames.drop_last()[i],
                    ) == Some((ip, before[ip]));
                assert(arp_announcement(frames[i]) == Some((ip, after[ip])));
            }
        } else {
            assert(arp_announcement(frames[frames.len() - 1]) == Some((ip, after[ip])));
        }
    }
}

/// Starting from nothing, the mapping holds requested addresses only, and
/// each entry was announced by a frame of the run.
pub proof fn lemma_result_was_observed(
    targets: Seq<Ipv4Addr>,
    frames: Seq<Seq<u8>>,
    ip: Ipv4Addr,
)
    requires
        observe_all(Map::empty(), targets, frames).contains_key(ip),
    ensures
        targets.contains(ip),
        exists|i: int|
            0 <= i < frames.len() && frames[i].len() >= 42 && frame_ethertype(frames[i]) == 0x0806
                && arp_decode(frame_payload(frames[i])).sender_proto_addr == ip && arp_decode(
                frame_payload(frames[i]),
            ).sender_hw_addr == observe_all(Map::empty(), targets, frames)[ip],
{
    let result = observe_all(Map::<Ipv4Addr, MacAddr>::empty(), targets, frames);
    lemma_resolved_was_observed(Map::empty(), targets, frames, ip);
    let i = choose|i: int|
        0 <= i < frames.len() && #[trigger] arp_announcement(frames[i]) == Some((ip, result[ip]));
    assert(frames[i].len() >= 42 && frame_ethertype(frames[i]) == 0x0806);
}

/// Once every requested address has an answer, further frames change
/// nothing: listening on would find no more.
pub proof fn lemma_observe_when_all_resolved(
    resolved: Map<Ipv4Addr, MacAddr>,
    targets: Seq<Ipv4Addr>,
    frame: Seq<u8>,
)
    requires
        all_resolved(resolved, targets),
    ensures
        observe(resolved, targets, frame) == resolved,
{
    match query_response(frame, targets) {
        Some((ip, mac)) => {
            let i = choose|i: int| 0 <= i < targets.len() && targets[i] == ip;
            assert(resolved.contains_key(targets[i]));
        },
        None => {},
    }
}

} // verus!
