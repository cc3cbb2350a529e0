use blitz::socket::capture_hub::{CaptureHub, ConsumerBacklog, ConsumerHandle, CONSUMER_CAPACITY};
use blitz::socket::datalink_provider::{
    ChannelType, Config, DataLinkProvider, FanoutOption, FanoutType,
};
use blitz::socket::ethernet_packet_vector::EthernetPacketVector;
use blitz::socket::ethernet_packet_wrapper::EthernetPacketWrapper;

fn numbered(n: u16) -> Vec<u8> {
    let mut frame = vec![0u8; 14];
    frame.extend_from_slice(&n.to_be_bytes());
    frame
}

#[test]
fn every_consumer_sees_every_frame_in_capture_order() {
    let mut hub = CaptureHub::new();
    let first = hub.subscribe();
    let second = hub.subscribe();
    for n in 0..10 {
        hub.publish(&numbered(n));
    }
    for consumer in [first, second] {
        assert_eq!(hub.backlog_len(consumer), 10);
        for n in 0..10 {
            assert_eq!(hub.next_frame(consumer), Some(numbered(n)));
        }
        assert_eq!(hub.next_frame(consumer), None);
        assert_eq!(hub.dropped_count(consumer), 0);
    }
}

#[test]
fn a_consumer_sees_only_what_was_captured_after_it_subscribed() {
    let mut hub = CaptureHub::new();
    let early = hub.subscribe();
    hub.publish(&numbered(1));
    let late = hub.subscribe();
    hub.publish(&numbered(2));
    assert_eq!(hub.next_frame(early), Some(numbered(1)));
    assert_eq!(hub.next_frame(early), Some(numbered(2)));
    assert_eq!(hub.next_frame(late), Some(numbered(2)));
    assert_eq!(hub.next_frame(late), None);
}

#[test]
fn a_full_backlog_drops_its_oldest_frame() {
    assert_eq!(CONSUMER_CAPACITY, 64);
    let mut hub = CaptureHub::new();
    let slow = hub.subscribe();
    for n in 0..64 {
        hub.publish(&numbered(n));
    }
    assert_eq!(hub.backlog_len(slow), 64);
    assert_eq!(hub.dropped_count(slow), 0);
    hub.publish(&numbered(64));
    assert_eq!(hub.backlog_len(slow), 64);
    assert_eq!(hub.dropped_count(slow), 1);
    assert_eq!(hub.next_frame(slow), Some(numbered(1)));
    for n in 2..=64 {
        assert_eq!(hub.next_frame(slow), Some(numbered(n)));
    }
    assert_eq!(hub.next_frame(slow), None);
}

#[test]
fn a_slow_consumer_does_not_make_a_fast_one_lose_frames() {
    let mut hub = CaptureHub::new();
    let slow = hub.subscribe();
    let fast = hub.subscribe();
    let mut seen_by_fast = Vec::new();
    for n in 0..200 {
        hub.publish(&numbered(n));
        seen_by_fast.push(hub.next_frame(fast).unwrap());
    }
    assert_eq!(seen_by_fast, (0..200).map(numbered).collect::<Vec<_>>());
    assert_eq!(hub.dropped_count(fast), 0);
    // the slow one has the newest 64, and the others are counted
    assert_eq!(hub.dropped_count(slow), 136);
    assert_eq!(hub.backlog_len(slow), 64);
    let mut seen_by_slow = Vec::new();
    while let Some(frame) = hub.next_frame(slow) {
        seen_by_slow.push(frame);
    }
    assert_eq!(seen_by_slow, (136..200).map(numbered).collect::<Vec<_>>());
}

#[test]
fn every_frame_is_seen_waiting_or_counted_as_dropped() {
    let mut hub = CaptureHub::new();
    let consumer = hub.subscribe();
    let mut published: u64 = 0;
    let mut seen: Vec<Vec<u8>> = Vec::new();
    for round in 0..50u16 {
        for k in 0..(round % 7) * 20 {
            hub.publish(&numbered(round * 200 + k));
            published += 1;
        }
        for _ in 0..(round % 5) * 10 {
            if let Some(frame) = hub.next_frame(consumer) {
                seen.push(frame);
            }
        }
        assert_eq!(
            seen.len() as u64 + hub.backlog_len(consumer) as u64 + hub.dropped_count(consumer),
            published
        );
    }
    let mut sorted = seen.clone();
    sorted.sort();
    assert_eq!(seen, sorted);
}

#[test]
fn an_unknown_consumer_gets_nothing() {
    let mut hub = CaptureHub::new();
    hub.publish(&numbered(1));
    let stranger = ConsumerHandle { index: 3 };
    assert_eq!(hub.next_frame(stranger), None);
    assert_eq!(hub.backlog_len(stranger), 0);
    assert_eq!(hub.dropped_count(stranger), 0);
}

#[test]
fn stop_sets_the_flag_and_keeps_the_backlogs() {
    let mut hub = CaptureHub::new();
    let consumer = hub.subscribe();
    hub.publish(&numbered(1));
    assert!(!hub.is_stopped());
    hub.stop();
    assert!(hub.is_stopped());
    assert_eq!(hub.next_frame(consumer), Some(numbered(1)));
}

#[test]
fn backlog_alone() {
    let mut backlog = ConsumerBacklog::new();
    assert_eq!(backlog.take(), None);
    for n in 0..64 {
        assert!(!backlog.offer(numbered(n)));
    }
    assert!(backlog.offer(numbered(64)));
    assert!(backlog.offer(numbered(65)));
    assert_eq!(backlog.len(), 64);
    assert_eq!(backlog.dropped_count(), 2);
    assert_eq!(backlog.take(), Some(numbered(2)));
    assert!(!backlog.offer(numbered(66)));
    assert_eq!(backlog.dropped_count(), 2);
}

#[test]
fn channel_settings() {
    let provider = DataLinkProvider::new(0x1234);
    assert_eq!(
        provider.provide(),
        Config {
            write_buffer_size: 8192,
            read_buffer_size: 8192,
            read_timeout: None,
            write_timeout: None,
            channel_type: ChannelType::Layer2,
            bpf_fd_attempts: 1000,
            linux_fanout: Some(FanoutOption {
                group_id: 0x1234,
                fanout_type: FanoutType::LB,
                defrag: true,
                rollover: false,
            }),
            promiscuous: true,
        }
    );
}

#[test]
fn owned_frames_keep_their_bytes() {
    let bytes = numbered(7);
    let vector = EthernetPacketVector::new(&bytes);
    assert_eq!(vector.to_slice(), &bytes[..]);
    let copy = vector.copy();
    assert_eq!(copy.to_slice(), &bytes[..]);
    assert_eq!(vector.to_packet().payload(), &[0, 7]);
    let wrapper = EthernetPacketWrapper::new(&bytes);
    assert_eq!(wrapper.len(), 16);
    assert_eq!(wrapper.to_packet().packet(), &bytes[..]);
    assert_eq!(EthernetPacketVector::new(&[]).to_slice().len(), 0);
    assert_eq!(EthernetPacketWrapper::new(&[]).len(), 0);
}
