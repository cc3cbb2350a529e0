//! An owned frame.

use crate::packet::ethernet::EthernetPacket;
use vstd::prelude::*;
use vstd::slice::slice_to_vec;

verus! {

/// The bytes of one captured frame, owned.
pub struct EthernetPacketVector {
    data: Vec<u8>,
}

impl View for EthernetPacketVector {
    type V = Seq<u8>;

    closed spec fn view(&self) -> Seq<u8> {
        self.data@
    }
}

impl EthernetPacketVector {
    /// A copy of `packet`.
    pub fn new(packet: &[u8]) -> (r: EthernetPacketVector)
        ensures
            r@ == packet@,
    {
        EthernetPacketVector { data: slice_to_vec(packet) }
    }

    /// A second frame with the same bytes.
    pub fn copy(&self) -> (r: EthernetPacketVector)
        ensures
            r@ == self@,
    {
        EthernetPacketVector { data: slice_to_vec(self.data.as_slice()) }
    }

    /// The frame as an Ethernet view. The frame must hold a whole header.
    pub fn to_packet(&self) -> (r: EthernetPacket<'_>)
        requires
            self@.len() >= 14,
        ensures
            r@ == self@,
    {
        EthernetPacket::new(self.data.as_slice()).unwrap()
    }

    /// The bytes of the frame.
    pub fn to_slice(&self) -> (r: &[u8])
        ensures
            r@ == self@,
    {
        self.data.as_slice()
    }
}

} // verus!
