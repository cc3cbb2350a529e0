//! Where a host is on the LAN.

use crate::address::{Ipv4Addr, MacAddr};
use vstd::prelude::*;

verus! {

/// An IPv4 address together with the hardware address that answers for it.
#[derive(Clone, Copy, Debug, PartialEq, Eq, Structural)]
pub struct NetworkLocation {
    pub ipv4: Ipv4Addr,
    pub hw: MacAddr,
}

} // verus!
