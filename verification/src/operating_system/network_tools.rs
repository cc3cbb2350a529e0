//! The addresses of an interface, picked out of the list of all addresses
//! of all interfaces.
//!
//! The operating system reports one entry per interface and address
//! family. The caller reads that list and hands it over as plain values;
//! the first entry of the wanted interface and family decides.

use crate::address::{Ipv4Addr, MacAddr};
use crate::ipv4_text::{ipv4_text, parse_trimmed_ipv4, trimmed};
use vstd::prelude::*;

verus! {

/// An address of an interface, by family.
#[derive(Debug)]
pub enum SocketAddress {
    /// An IPv4 address.
    Inet(Ipv4Addr),
    /// An IPv6 address, as the operating system prints it.
    Inet6(String),
    /// A link-layer address; some interfaces have an empty one.
    Link(Option<MacAddr>),
    /// An address of another family.
    Other,
}

/// One entry of the list of interface addresses.
#[derive(Debug)]
pub struct InterfaceAddress {
    pub interface_name: String,
    /// `None` where the operating system reports no address.
    pub address: Option<SocketAddress>,
}

impl InterfaceAddress {
    /// The IPv4 address of the entry, if it has one.
    pub open spec fn ipv4(self) -> Option<Ipv4Addr> {
        match self.address {
            Some(SocketAddress::Inet(ip)) => Some(ip),
            _ => None,
        }
    }

    /// The text of the IPv6 address of the entry, if it has one.
    pub open spec fn ipv6(self) -> Option<Seq<char>> {
        match self.address {
            Some(SocketAddress::Inet6(text)) => Some(text@),
            _ => None,
        }
    }

    /// The hardware address of the entry, if it has one that is not empty.
    pub open spec fn hardware(self) -> Option<MacAddr> {
        match self.address {
            Some(SocketAddress::Link(Some(mac))) => Some(mac),
            _ => None,
        }
    }
}

/// The IPv4 address of the first entry of interface `name` that has one.
pub open spec fn first_ipv4(entries: Seq<InterfaceAddress>, name: Seq<char>) -> Option<Ipv4Addr>
    decreases entries.len(),
{
    if entries.len() == 0 {
        None
    } else if entries[0].interface_name@ == name && entries[0].ipv4() is Some {
        entries[0].ipv4()
    } else {
        first_ipv4(entries.drop_first(), name)
    }
}

/// The text of the IPv6 address of the first entry of interface `name`
/// that has one.
pub open spec fn first_ipv6(entries: Seq<InterfaceAddress>, name: Seq<char>) -> Option<Seq<char>>
    decreases entries.len(),
{
    if entries.len() == 0 {
        None
    } else if entries[0].interface_name@ == name && entries[0].ipv6() is Some {
        entries[0].ipv6()
    } else {
        first_ipv6(entries.drop_first(), name)
    }
}

/// The hardware address of the first entry of interface `name` that has a
/// link-layer address which is not empty.
pub open spec fn first_hardware(entries: Seq<InterfaceAddress>, name: Seq<char>) -> Option<MacAddr>
    decreases entries.len(),
{
    if entries.len() == 0 {
        None
    } else if entries[0].interface_name@ == name && entries[0].hardware() is Some {
        entries[0].hardware()
    } else {
        first_hardware(entries.drop_first(), name)
    }
}

/// The place of the first of `names` that is `name`.
pub open spec fn first_named(names: Seq<String>, name: Seq<char>) -> Option<int>
    decreases names.len(),
{
    if names.len() == 0 {
        None
    } else if names[0]@ == name {
        Some(0)
    } else {
        match first_named(names.drop_first(), name) {
            Some(i) => Some(i + 1),
            None => None,
        }
    }
}

/// Picks interfaces and their addresses.
pub struct NetworkToolsImpl {}

impl NetworkToolsImpl {
    pub fn new() -> (r: NetworkToolsImpl) {
        NetworkToolsImpl {  }
    }

    /// The place, in the list of interface names, of the interface called
    /// `interface_name`.
    pub fn fetch_interface(&self, names: &Vec<String>, interface_name: &str) -> (r: Option<usize>)
        ensures
            r is Some <==> first_named(names@, interface_name@) is Some,
            r matches Some(i) ==> first_named(names@, interface_name@) == Some(i as int) && i
                < names@.len() && names@[i as int]@ == interface_name@,
    {
        let wanted = interface_name.to_owned();
        let mut i: usize = 0;
        proof {
            assert(names@.subrange(0, names@.len() as int) =~= names@);
        }
        while i < names.len()
            invariant
                i <= names@.len(),
                wanted@ == interface_name@,
                first_named(names@, interface_name@) == match first_named(
                    names@.subrange(i as int, names@.len() as int),
                    interface_name@,
                ) {
                    Some(k) => Some(k + i),
                    None => None::<int>,
                },
            decreases names@.len() - i,
        {
            let ghost rest = names@.subrange(i as int, names@.len() as int);
            proof {
                assert(rest[0] == names@[i as int]);
                assert(rest.drop_first() =~= names@.subrange(i + 1, names@.len() as int));
            }
            if names[i] == wanted {
                return Some(i);
            }
            i += 1;
        }
        proof {
            assert(names@.subrange(i as int, names@.len() as int).len() == 0);
        }
        None
    }

    /// The gateway that the routing table names: `output` is what the
    /// routing tool printed, one address with whitespace round it. `None`
    /// when it printed anything else.
    pub fn fetch_gateway_ip(&self, output: &str) -> (r: Option<Ipv4Addr>)
        ensures
            r matches Some(ip) ==> trimmed(output@) == ipv4_text(ip),
            r is None ==> forall|ip: Ipv4Addr| trimmed(output@) != #[trigger] ipv4_text(ip),
    {
        parse_trimmed_ipv4(output)
    }

    /// The IPv4 address of the interface called `interface_name`.
    pub fn fetch_ipv4_address(&self, addresses: &Vec<InterfaceAddress>, interface_name: &str) -> (r:
        Option<Ipv4Addr>)
        ensures
            r == first_ipv4(addresses@, interface_name@),
    {
        let wanted = interface_name.to_owned();
        let mut i: usize = 0;
        proof {
            assert(addresses@.subrange(0, addresses@.len() as int) =~= addresses@);
        }
        while i < addresses.len()
            invariant
                i <= addresses@.len(),
                wanted@ == interface_name@,
                first_ipv4(addresses@, interface_name@) == first_ipv4(
                    addresses@.subrange(i as int, addresses@.len() as int),
                    interface_name@,
                ),
            decreases addresses@.len() - i,
        {
            let ghost rest = addresses@.subrange(i as int, addresses@.len() as int);
            proof {
                assert(rest[0] == addresses@[i as int]);
                assert(rest.drop_first() =~= addresses@.subrange(i + 1, addresses@.len() as int));
            }
            if addresses[i].interface_name == wanted {
                match &addresses[i].address {
                    Some(SocketAddress::Inet(ip)) => {
                        return Some(*ip);
                    },
                    _ => {},
                }
            }
            i += 1;
        }
        proof {
            assert(addresses@.subrange(i as int, addresses@.len() as int).len() == 0);
        }
        None
    }

    /// The IPv6 address of the interface called `interface_name`, as text.
    pub fn fetch_ipv6_address(&self, addresses: &Vec<InterfaceAddress>, interface_name: &str) -> (r:
        Option<String>)
        ensures
            r is Some <==> first_ipv6(addresses@, interface_name@) is Some,
            r matches Some(text) ==> first_ipv6(addresses@, interface_name@) == Some(text@),
    {
        let wanted = interface_name.to_owned();
        let mut i: usize = 0;
        proof {
            assert(addresses@.subrange(0, addresses@.len() as int) =~= addresses@);
        }
        while i < addresses.len()
            invariant
                i <= addresses@.len(),
                wanted@ == interface_name@,
                first_ipv6(addresses@, interface_name@) == first_ipv6(
                    addresses@.subrange(i as int, addresses@.len() as int),
                    interface_name@,
                ),
            decreases addresses@.len() - i,
        {
            let ghost rest = addresses@.subrange(i as int, addresses@.len() as int);
            proof {
                assert(rest[0] == addresses@[i as int]);
                assert(rest.drop_first() =~= addresses@.subrange(i + 1, addresses@.len() as int));
            }
            if addresses[i].interface_name == wanted {
                match &addresses[i].address {
                    Some(SocketAddress::Inet6(text)) => {
                        return Some(text.clone());
                    },
                    _ => {},
                }
            }
            i += 1;
        }
        proof {
            assert(addresses@.subrange(i as int, addresses@.len() as int).len() == 0);
        }
        None
    }

    /// The hardware address of the interface called `interface_name`.
    pub fn fetch_hardware_address(
        &self,
        addresses: &Vec<InterfaceAddress>,
        interface_name: &str,
    ) -> (r: Option<MacAddr>)
        ensures
            r == first_hardware(addresses@, interface_name@),
    {
        let wanted = interface_name.to_owned();
        let mut i: usize = 0;
        proof {
            assert(addresses@.subrange(0, addresses@.len() as int) =~= addresses@);
        }
        while i < addresses.len()
            invariant
                i <= addresses@.len(),
                wanted@ == interface_name@,
                first_hardware(addresses@, interface_name@) == first_hardware(
                    addresses@.subrange(i as int, addresses@.len() as int),
                    interface_name@,
                ),
            decreases addresses@.len() - i,
        {
            let ghost rest = addresses@.subrange(i as int, addresses@.len() as int);
            proof {
                assert(rest[0] == addresses@[i as int]);
                assert(rest.drop_first() =~= addresses@.subrange(i + 1, addresses@.len() as int));
            }
            if addresses[i].interface_name == wanted {
                match &addresses[i].address {
                    Some(SocketAddress::Link(Some(mac))) => {
                        return Some(*mac);
                    },
                    _ => {},
                }
            }
            i += 1;
        }
        proof {
            assert(addresses@.subrange(i as int, addresses@.len() as int).len() == 0);
        }
        None
    }
}

} // verus!
