use blitz::address::{Ipv4Addr, MacAddr};
use blitz::arp::network_location::NetworkLocation;
use blitz::arp::spoofer::{
    ArpSpooferImpl, AsyncArpSpooferImpl, SpoofCycle, SpoofState, SpoofingEntry,
    DEFAULT_SPOOF_CADENCE_MS,
};
use blitz::packet::arp::ArpPacket;
use blitz::packet::ethernet::EthernetPacket;

fn attacker() -> MacAddr {
    MacAddr::new(0x02, 0xaa, 0, 0, 0, 0x01)
}

fn gateway() -> NetworkLocation {
    NetworkLocation { ipv4: Ipv4Addr::new(192, 0, 2, 1), hw: MacAddr::new(2, 0, 0, 0, 0, 1) }
}

fn victim(last: u8) -> NetworkLocation {
    NetworkLocation {
        ipv4: Ipv4Addr::new(192, 0, 2, last),
        hw: MacAddr::new(2, 0, 0, 0, 0, last),
    }
}

fn entry(last: u8) -> SpoofingEntry {
    SpoofingEntry::new(gateway(), attacker(), victim(last))
}

fn matches_entry(frame: &[u8], entry: &SpoofingEntry) -> bool {
    let ethernet = EthernetPacket::new(frame).unwrap();
    let arp = ArpPacket::new(ethernet.payload()).unwrap();
    ethernet.get_source() == entry.spoof_to_hw
        && ethernet.get_destination() == entry.target.hw
        && ethernet.get_ethertype() == 0x0806
        && arp.get_operation() == 2
        && arp.get_sender_proto_addr() == entry.original_location.ipv4
        && arp.get_sender_hw_addr() == entry.spoof_to_hw
        && arp.get_target_proto_addr() == entry.target.ipv4
        && arp.get_target_hw_addr() == entry.target.hw
}

#[test]
fn forged_reply_has_the_expected_bytes() {
    let frame = ArpSpooferImpl::new().spoof_target(&entry(7));
    let expected: Vec<u8> = vec![
        2, 0, 0, 0, 0, 7, // to the victim
        0x02, 0xaa, 0, 0, 0, 0x01, // from the attacker
        0x08, 0x06, // ARP
        0, 1, 8, 0, 6, 4, 0, 2, // Ethernet, IPv4, reply
        0x02, 0xaa, 0, 0, 0, 0x01, 192, 0, 2, 1, // the gateway's address at the attacker
        2, 0, 0, 0, 0, 7, 192, 0, 2, 7, // the victim
    ];
    assert_eq!(frame, expected);
    assert!(matches_entry(&frame, &entry(7)));
}

#[test]
fn spoof_cadence() {
    let mut driver = AsyncArpSpooferImpl::new();
    driver.add_entry(entry(7));
    assert!(driver.start_spoofing());

    let mut now_ms: u64 = 0;
    let stop_at_ms: u64 = 25_000;
    let mut received: Vec<(u64, Vec<u8>)> = Vec::new();
    let mut stop_sent = false;
    loop {
        if !stop_sent && now_ms >= stop_at_ms {
            driver.stop();
            stop_sent = true;
        }
        match driver.next_cycle() {
            SpoofCycle::Transmit { frames, wait_ms } => {
                for frame in frames {
                    received.push((now_ms, frame));
                }
                now_ms += wait_ms;
            }
            SpoofCycle::Exit => break,
        }
    }
    assert_eq!(received.len(), 3);
    let times: Vec<u64> = received.iter().map(|(t, _)| *t).collect();
    assert_eq!(times, vec![0, 10_000, 20_000]);
    assert!(received.iter().all(|(_, frame)| matches_entry(frame, &entry(7))));
    assert_eq!(driver.current_state(), SpoofState::Idle);
}

#[test]
fn every_cycle_has_one_frame_per_entry() {
    let mut driver = AsyncArpSpooferImpl::with_cadence(2_000);
    driver.add_entry(entry(7));
    driver.add_entry(entry(8));
    driver.add_entry(entry(9));
    assert_eq!(driver.entry_count(), 3);
    driver.start_spoofing();
    for _ in 0..4 {
        match driver.next_cycle() {
            SpoofCycle::Transmit { frames, wait_ms } => {
                assert_eq!(wait_ms, 2_000);
                assert_eq!(frames.len(), 3);
                for last in [7u8, 8, 9] {
                    let count =
                        frames.iter().filter(|f| matches_entry(f, &entry(last))).count();
                    assert_eq!(count, 1);
                }
                assert_eq!(frames[0], ArpSpooferImpl::new().spoof_target(&entry(7)));
                assert_eq!(frames[2], ArpSpooferImpl::new().spoof_target(&entry(9)));
            }
            SpoofCycle::Exit => panic!("a running driver transmits"),
        }
    }
}

#[test]
fn entries_added_between_cycles_take_effect_in_the_next() {
    let mut driver = AsyncArpSpooferImpl::new();
    driver.add_entry(entry(7));
    driver.start_spoofing();
    let first = driver.next_cycle();
    driver.add_entry(entry(8));
    let second = driver.next_cycle();
    match (first, second) {
        (
            SpoofCycle::Transmit { frames: a, wait_ms },
            SpoofCycle::Transmit { frames: b, .. },
        ) => {
            assert_eq!(wait_ms, DEFAULT_SPOOF_CADENCE_MS);
            assert_eq!(wait_ms, 10_000);
            assert_eq!(a.len(), 1);
            assert_eq!(b.len(), 2);
        }
        _ => panic!("a running driver transmits"),
    }
}

#[test]
fn nothing_is_sent_unless_running() {
    let mut driver = AsyncArpSpooferImpl::new();
    driver.add_entry(entry(7));
    assert!(matches!(driver.next_cycle(), SpoofCycle::Exit));
    assert_eq!(driver.current_state(), SpoofState::Idle);

    driver.start_spoofing();
    driver.stop();
    assert_eq!(driver.current_state(), SpoofState::Stopping);
    assert!(matches!(driver.next_cycle(), SpoofCycle::Exit));
    assert_eq!(driver.current_state(), SpoofState::Idle);
}

#[test]
fn state_transitions() {
    let mut driver = AsyncArpSpooferImpl::new();
    assert_eq!(driver.current_state(), SpoofState::Idle);
    driver.stop();
    assert_eq!(driver.current_state(), SpoofState::Idle);
    driver.drain();
    assert_eq!(driver.current_state(), SpoofState::Idle);
    assert!(driver.start_spoofing());
    assert_eq!(driver.current_state(), SpoofState::Running);
    assert!(!driver.start_spoofing());
    driver.drain();
    assert_eq!(driver.current_state(), SpoofState::Running);
    driver.stop();
    assert_eq!(driver.current_state(), SpoofState::Stopping);
    assert!(!driver.start_spoofing());
    assert_eq!(driver.current_state(), SpoofState::Stopping);
    driver.drain();
    assert_eq!(driver.current_state(), SpoofState::Idle);
    assert!(driver.start_spoofing());
}

#[test]
fn a_running_driver_without_entries_sends_nothing_and_keeps_running() {
    let mut driver = AsyncArpSpooferImpl::new();
    driver.start_spoofing();
    match driver.next_cycle() {
        SpoofCycle::Transmit { frames, .. } => assert!(frames.is_empty()),
        SpoofCycle::Exit => panic!("a running driver transmits"),
    }
    assert_eq!(driver.current_state(), SpoofState::Running);
}
