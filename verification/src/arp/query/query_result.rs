//! What a query has found so far.

use crate::address::{
    lemma_ipv4_bits_injective, lemma_ipv4_bits_round_trip, lemma_ipv4_of_bits, Ipv4Addr, MacAddr,
};
use std::collections::HashMap;
use vstd::prelude::*;
use vstd::set_lib::lemma_map_size;

verus! {

broadcast use vstd::std_specs::hash::group_hash_axioms;

/// A partial mapping from IPv4 address to hardware address: the hosts that
/// have answered. It is kept in a hash map keyed by the address's number.
pub struct ArpQueryResult {
    map: HashMap<u32, MacAddr>,
}

impl View for ArpQueryResult {
    type V = Map<Ipv4Addr, MacAddr>;

    closed spec fn view(&self) -> Map<Ipv4Addr, MacAddr> {
        Map::new(
            |ip: Ipv4Addr| self.map@.contains_key(ip.bits() as u32),
            |ip: Ipv4Addr| self.map@[ip.bits() as u32],
        )
    }
}

impl ArpQueryResult {
    /// The mapping has as many entries as the hash map, and so finitely many.
    proof fn lemma_len(&self)
        ensures
            self@.dom().finite(),
            self@.len() == self.map@.len(),
    {
        let keys = self.map@.dom();
        let f = |b: u32| Ipv4Addr::of_bits(b as int);
        assert forall|b1: u32, b2: u32|
            keys.contains(b1) && keys.contains(b2) && #[trigger] f(b1) == #[trigger] f(
                b2,
            ) implies b1 == b2 by {
            lemma_ipv4_of_bits(b1 as int);
            lemma_ipv4_of_bits(b2 as int);
        }
        assert(keys.map(f) =~= self@.dom()) by {
            assert forall|ip: Ipv4Addr| keys.map(f).contains(ip) implies self@.dom().contains(
                ip,
            ) by {
                let b = choose|b: u32| keys.contains(b) && f(b) == ip;
                lemma_ipv4_of_bits(b as int);
            }
            assert forall|ip: Ipv4Addr| self@.dom().contains(ip) implies keys.map(f).contains(
                ip,
            ) by {
                lemma_ipv4_bits_round_trip(ip);
                let b = ip.bits() as u32;
                assert(keys.contains(b) && f(b) == ip);
            }
        }
        lemma_map_size(keys, self@.dom(), f);
    }

    /// The empty mapping.
    pub fn new() -> (r: ArpQueryResult)
        ensures
            r@ == Map::<Ipv4Addr, MacAddr>::empty(),
    {
        let r = ArpQueryResult { map: HashMap::new() };
        assert(r@ =~= Map::<Ipv4Addr, MacAddr>::empty());
        r
    }

    /// Records that `ip` is at `mac`, in place of what was known of `ip`.
    pub fn insert(&mut self, ip: Ipv4Addr, mac: MacAddr)
        ensures
            final(self)@ == old(self)@.insert(ip, mac),
    {
        self.map.insert(ip.to_bits(), mac);
        proof {
            assert forall|other: Ipv4Addr| other.bits() == ip.bits() implies other == ip by {
                lemma_ipv4_bits_injective(other, ip);
            }
            assert(self@ =~= old(self)@.insert(ip, mac));
        }
    }

    /// The hardware address recorded for `ip`, if there is one.
    pub fn get(&self, ip: Ipv4Addr) -> (r: Option<MacAddr>)
        ensures
            r == if self@.contains_key(ip) {
                Some(self@[ip])
            } else {
                None::<MacAddr>
            },
    {
        let key: u32 = ip.to_bits();
        match self.map.get(&key) {
            Some(mac) => Some(*mac),
            None => None,
        }
    }

    /// Whether `ip` has an entry.
    pub fn contains(&self, ip: Ipv4Addr) -> (r: bool)
        ensures
            r == self@.contains_key(ip),
    {
        let key: u32 = ip.to_bits();
        self.map.contains_key(&key)
    }

    /// Number of entries.
    pub fn len(&self) -> (r: usize)
        ensures
            self@.dom().finite(),
            r == self@.len(),
    {
        proof {
            self.lemma_len();
        }
        self.map.len()
    }

    /// Whether there is no entry.
    pub fn is_empty(&self) -> (r: bool)
        ensures
            r == (self@ == Map::<Ipv4Addr, MacAddr>::empty()),
    {
        proof {
            self.lemma_len();
            if self@.len() == 0 {
                assert(self@.dom() =~= Set::<Ipv4Addr>::empty());
                assert(self@ =~= Map::<Ipv4Addr, MacAddr>::empty());
            }
        }
        self.map.len() == 0
    }
}

} // verus!
