//! An owned frame that is only read as a packet.

use crate::packet::ethernet::EthernetPacket;
use vstd::prelude::*;
use vstd::slice::slice_to_vec;

verus! {

/// The bytes of one captured frame, handed from the reader to a consumer.
pub struct EthernetPacketWrapper {
    data: Vec<u8>,
}

impl View for EthernetPacketWrapper {
    type V = Seq<u8>;

    closed spec fn view(&self) -> Seq<u8> {
        self.data@
    }
}

impl EthernetPacketWrapper {
    /// A copy of `packet`.
    pub fn new(packet: &[u8]) -> (r: EthernetPacketWrapper)
        ensures
            r@ == packet@,
    {
        EthernetPacketWrapper { data: slice_to_vec(packet) }
    }

    /// Number of bytes.
    pub fn len(&self) -> (r: usize)
        ensures
            r == self@.len(),
    {
        self.data.len()
    }

    /// The frame as an Ethernet view. The frame must hold a whole header.
    pub fn to_packet(&self) -> (r: EthernetPacket<'_>)
        requires
            self@.len() >= 14,
        ensures
            r@ == self@,
    {
        EthernetPacket::new(self.data.as_slice()).unwrap()
    }
}

} // verus!
