//! The settings of the raw channel.

use vstd::prelude::*;

verus! {

/// Smallest size of the read and of the write buffer, in bytes.
pub const CHANNEL_BUFFER_SIZE: usize = 8192;

/// Number of packet-filter devices tried before opening fails.
pub const BPF_FD_ATTEMPTS: usize = 1000;

/// At which layer the channel reads and writes.
#[derive(Clone, Copy, Debug, PartialEq, Eq, Structural)]
pub enum ChannelType {
    /// Whole frames, headers included.
    Layer2,
    /// Network-layer packets of the given ethertype.
    Layer3(u16),
}

/// How the kernel spreads captured packets over the sockets of a group.
#[derive(Clone, Copy, Debug, PartialEq, Eq, Structural)]
pub enum FanoutType {
    HASH,
    LB,
    CPU,
    ROLLOVER,
    RND,
    QM,
    CBPF,
    EBPF,
}

/// Fan-out settings of a socket.
#[derive(Clone, Copy, Debug, PartialEq, Eq, Structural)]
pub struct FanoutOption {
    pub group_id: u16,
    pub fanout_type: FanoutType,
    pub defrag: bool,
    pub rollover: bool,
}

/// Everything the channel is opened with. Timeouts are in milliseconds.
#[derive(Clone, Copy, Debug, PartialEq, Eq, Structural)]
pub struct Config {
    pub write_buffer_size: usize,
    pub read_buffer_size: usize,
    pub read_timeout: Option<u64>,
    pub write_timeout: Option<u64>,
    pub channel_type: ChannelType,
    pub bpf_fd_attempts: usize,
    pub linux_fanout: Option<FanoutOption>,
    pub promiscuous: bool,
}

/// Says how the raw channel of an interface is to be opened.
pub struct DataLinkProvider {
    fanout_option: FanoutOption,
}

impl DataLinkProvider {
    /// The fan-out settings of the channels this provider describes.
    pub closed spec fn fanout(&self) -> FanoutOption {
        self.fanout_option
    }

    /// The settings for a fan-out group: packets are balanced over the
    /// sockets of the group, defragmented, without rollover.
    pub open spec fn fanout_of(group_id: u16) -> FanoutOption {
        FanoutOption { group_id, fanout_type: FanoutType::LB, defrag: true, rollover: false }
    }

    /// The settings of a channel with the fan-out `fanout`: promiscuous,
    /// at layer 2, with buffers of 8 KiB and without timeouts.
    pub open spec fn config_of(fanout: FanoutOption) -> Config {
        Config {
            write_buffer_size: 8192,
            read_buffer_size: 8192,
            read_timeout: None,
            write_timeout: None,
            channel_type: ChannelType::Layer2,
            bpf_fd_attempts: 1000,
            linux_fanout: Some(fanout),
            promiscuous: true,
        }
    }

    /// A provider for the fan-out group `group_id`, which the caller picks
    /// at random.
    pub fn new(group_id: u16) -> (r: DataLinkProvider)
        ensures
            r.fanout() == DataLinkProvider::fanout_of(group_id),
    {
        DataLinkProvider {
            fanout_option: FanoutOption {
                group_id,
                fanout_type: FanoutType::LB,
                defrag: true,
                rollover: false,
            },
        }
    }

    /// The settings to open the channel with.
    pub fn provide(&self) -> (r: Config)
        ensures
            r == DataLinkProvider::config_of(self.fanout()),
    {
        Config {
            write_buffer_size: CHANNEL_BUFFER_SIZE,
            read_buffer_size: CHANNEL_BUFFER_SIZE,
            read_timeout: None,
            write_timeout: None,
            channel_type: ChannelType::Layer2,
            bpf_fd_attempts: BPF_FD_ATTEMPTS,
            linux_fanout: Some(self.fanout_option),
            promiscuous: true,
        }
    }
}

} // verus!
