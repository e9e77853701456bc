//! How the server does its datagram I/O, and what it counts of it.

use vstd::prelude::*;
use crate::server::perf::more;
use crate::text::{chars_of, spells, trim, trimmed};

verus! {

/// Whether datagrams are received and sent many at a time.
#[derive(Clone, Copy, Debug, PartialEq, Eq, Structural)]
pub enum UdpDatagramMode {
    Batch,
    Compat,
}

impl Default for UdpDatagramMode {
    fn default() -> (r: UdpDatagramMode)
        ensures
            r == UdpDatagramMode::Batch,
    {
        UdpDatagramMode::Batch
    }
}

impl UdpDatagramMode {
    /// The system calls in use.
    pub fn label(self) -> (r: &'static str)
        ensures
            r@ == match self {
                UdpDatagramMode::Batch => "recvmmsg/sendmmsg"@,
                UdpDatagramMode::Compat => "recvmsg/sendmsg"@,
            },
    {
        match self {
            UdpDatagramMode::Batch => "recvmmsg/sendmmsg",
            UdpDatagramMode::Compat => "recvmsg/sendmsg",
        }
    }
}

/// What is counted of the I/O; no count overflows.
#[derive(Clone, Copy, Debug, PartialEq, Eq, Structural)]
pub struct IoCounters {
    pub udp_datagram_mode: UdpDatagramMode,
    pub udp_datagram_mode_switches: u64,
    pub udp_rx_packets: u64,
    pub udp_rx_bytes: u64,
    pub udp_rx_errors: u64,
    pub udp_rx_eagain: u64,
    pub udp_rx_enobufs: u64,
    pub udp_recv_syscalls: u64,
    pub udp_recv_batch_max: u64,
    pub udp_tx_packets: u64,
    pub udp_tx_bytes: u64,
    pub udp_tx_errors: u64,
    pub udp_tx_drops: u64,
    pub udp_tx_eagain: u64,
    pub udp_tx_enobufs: u64,
    pub udp_send_syscalls: u64,
    pub partial_sendmmsg: u64,
    pub tun_rx_packets: u64,
    pub tun_rx_bytes: u64,
    pub tun_rx_errors: u64,
    pub tun_tx_packets: u64,
    pub tun_tx_bytes: u64,
    pub tun_tx_errors: u64,
    pub tun_tx_drops: u64,
    pub readiness_wakeups: u64,
    pub free_udp_tx_slots: u64,
    pub free_tun_tx_slots: u64,
    pub packet_pool_capacity: u64,
    pub packet_pool_allocated: u64,
    pub packet_pool_retained: u64,
}

impl Default for IoCounters {
    fn default() -> (r: IoCounters)
        ensures
            r == IoCounters::zero(UdpDatagramMode::Batch),
    {
        IoCounters {
            udp_datagram_mode: UdpDatagramMode::Batch,
            udp_datagram_mode_switches: 0,
            udp_rx_packets: 0,
            udp_rx_bytes: 0,
            udp_rx_errors: 0,
            udp_rx_eagain: 0,
            udp_rx_enobufs: 0,
            udp_recv_syscalls: 0,
            udp_recv_batch_max: 0,
            udp_tx_packets: 0,
            udp_tx_bytes: 0,
            udp_tx_errors: 0,
            udp_tx_drops: 0,
            udp_tx_eagain: 0,
            udp_tx_enobufs: 0,
            udp_send_syscalls: 0,
            partial_sendmmsg: 0,
            tun_rx_packets: 0,
            tun_rx_bytes: 0,
            tun_rx_errors: 0,
            tun_tx_packets: 0,
            tun_tx_bytes: 0,
            tun_tx_errors: 0,
            tun_tx_drops: 0,
            readiness_wakeups: 0,
            free_udp_tx_slots: 0,
            free_tun_tx_slots: 0,
            packet_pool_capacity: 0,
            packet_pool_allocated: 0,
            packet_pool_retained: 0,
        }
    }
}

/// The sum of a count and a length.
pub open spec fn grown(count: u64, length: nat) -> u64 {
    if count + length > u64::MAX {
        u64::MAX
    } else {
        (count + length) as u64
    }
}

impl IoCounters {
    pub open spec fn zero(mode: UdpDatagramMode) -> IoCounters {
        IoCounters {
            udp_datagram_mode: mode,
            udp_datagram_mode_switches: 0,
            udp_rx_packets: 0,
            udp_rx_bytes: 0,
            udp_rx_errors: 0,
            udp_rx_eagain: 0,
            udp_rx_enobufs: 0,
            udp_recv_syscalls: 0,
            udp_recv_batch_max: 0,
            udp_tx_packets: 0,
            udp_tx_bytes: 0,
            udp_tx_errors: 0,
            udp_tx_drops: 0,
            udp_tx_eagain: 0,
            udp_tx_enobufs: 0,
            udp_send_syscalls: 0,
            partial_sendmmsg: 0,
            tun_rx_packets: 0,
            tun_rx_bytes: 0,
            tun_rx_errors: 0,
            tun_tx_packets: 0,
            tun_tx_bytes: 0,
            tun_tx_errors: 0,
            tun_tx_drops: 0,
            readiness_wakeups: 0,
            free_udp_tx_slots: 0,
            free_tun_tx_slots: 0,
            packet_pool_capacity: 0,
            packet_pool_allocated: 0,
            packet_pool_retained: 0,
        }
    }

    pub open spec fn udp_dropped(self) -> IoCounters {
        IoCounters {
            udp_tx_drops: more(self.udp_tx_drops, 1),
            ..self
        }
    }

    /// A datagram was dropped unsent.
    pub fn drop_udp(&mut self)
        ensures
            *final(self) == old(self).udp_dropped(),
    {
        self.udp_tx_drops = self.udp_tx_drops.saturating_add(1);
    }

    pub open spec fn tun_dropped(self) -> IoCounters {
        IoCounters {
            tun_tx_drops: more(self.tun_tx_drops, 1),
            ..self
        }
    }

    /// A packet for the tunnel was dropped.
    pub fn drop_tun(&mut self)
        ensures
            *final(self) == old(self).tun_dropped(),
    {
        self.tun_tx_drops = self.tun_tx_drops.saturating_add(1);
    }

    pub open spec fn tun_sent(self, length: nat) -> IoCounters {
        IoCounters {
            tun_tx_packets: more(self.tun_tx_packets, 1),
            tun_tx_bytes: grown(self.tun_tx_bytes, length),
            ..self
        }
    }

    /// A packet was written to the tunnel.
    pub fn send_tun(&mut self, length: usize)
        ensures
            *final(self) == old(self).tun_sent(length as nat),
    {
        self.tun_tx_packets = self.tun_tx_packets.saturating_add(1);
        self.tun_tx_bytes = self.tun_tx_bytes.saturating_add(length as u64);
    }

    pub open spec fn tun_send_failed(self) -> IoCounters {
        IoCounters {
            tun_tx_errors: more(self.tun_tx_errors, 1),
            tun_tx_drops: more(self.tun_tx_drops, 1),
            ..self
        }
    }

    /// The tunnel refused a packet.
    pub fn fail_tun_send(&mut self)
        ensures
            *final(self) == old(self).tun_send_failed(),
    {
        self.tun_tx_errors = self.tun_tx_errors.saturating_add(1);
        self.tun_tx_drops = self.tun_tx_drops.saturating_add(1);
    }

    pub open spec fn udp_sent(self, length: nat) -> IoCounters {
        IoCounters {
            udp_tx_packets: more(self.udp_tx_packets, 1),
            udp_tx_bytes: grown(self.udp_tx_bytes, length),
            ..self
        }
    }

    /// A datagram was sent.
    pub fn send_udp(&mut self, length: usize)
        ensures
            *final(self) == old(self).udp_sent(length as nat),
    {
        self.udp_tx_packets = self.udp_tx_packets.saturating_add(1);
        self.udp_tx_bytes = self.udp_tx_bytes.saturating_add(length as u64);
    }

    pub open spec fn udp_send_failed(self) -> IoCounters {
        IoCounters {
            udp_tx_errors: more(self.udp_tx_errors, 1),
            udp_tx_drops: more(self.udp_tx_drops, 1),
            ..self
        }
    }

    /// A datagram could not be sent.
    pub fn fail_udp_send(&mut self)
        ensures
            *final(self) == old(self).udp_send_failed(),
    {
        self.udp_tx_errors = self.udp_tx_errors.saturating_add(1);
        self.udp_tx_drops = self.udp_tx_drops.saturating_add(1);
    }

    pub open spec fn udp_send_blocked(self) -> IoCounters {
        IoCounters {
            udp_tx_eagain: more(self.udp_tx_eagain, 1),
            ..self
        }
    }

    /// Sending would have blocked.
    pub fn block_udp_send(&mut self)
        ensures
            *final(self) == old(self).udp_send_blocked(),
    {
        self.udp_tx_eagain = self.udp_tx_eagain.saturating_add(1);
    }

    pub open spec fn udp_send_starved(self) -> IoCounters {
        IoCounters {
            udp_tx_enobufs: more(self.udp_tx_enobufs, 1),
            ..self
        }
    }

    /// The system had no room to send.
    pub fn starve_udp_send(&mut self)
        ensures
            *final(self) == old(self).udp_send_starved(),
    {
        self.udp_tx_enobufs = self.udp_tx_enobufs.saturating_add(1);
    }

    pub open spec fn udp_received(self, length: nat) -> IoCounters {
        IoCounters {
            udp_rx_packets: more(self.udp_rx_packets, 1),
            udp_rx_bytes: grown(self.udp_rx_bytes, length),
            ..self
        }
    }

    /// A datagram came in.
    pub fn receive_udp(&mut self, length: usize)
        ensures
            *final(self) == old(self).udp_received(length as nat),
    {
        self.udp_rx_packets = self.udp_rx_packets.saturating_add(1);
        self.udp_rx_bytes = self.udp_rx_bytes.saturating_add(length as u64);
    }

    pub open spec fn udp_receive_failed(self) -> IoCounters {
        IoCounters {
            udp_rx_errors: more(self.udp_rx_errors, 1),
            ..self
        }
    }

    /// A datagram could not be received.
    pub fn fail_udp_receive(&mut self)
        ensures
            *final(self) == old(self).udp_receive_failed(),
    {
        self.udp_rx_errors = self.udp_rx_errors.saturating_add(1);
    }

    pub open spec fn udp_receive_blocked(self) -> IoCounters {
        IoCounters {
            udp_rx_eagain: more(self.udp_rx_eagain, 1),
            ..self
        }
    }

    /// No datagram was there.
    pub fn block_udp_receive(&mut self)
        ensures
            *final(self) == old(self).udp_receive_blocked(),
    {
        self.udp_rx_eagain = self.udp_rx_eagain.saturating_add(1);
    }

    pub open spec fn udp_receive_starved(self) -> IoCounters {
        IoCounters {
            udp_rx_errors: more(self.udp_rx_errors, 1),
            udp_rx_enobufs: more(self.udp_rx_enobufs, 1),
            ..self
        }
    }

    /// The system had no room to receive.
    pub fn starve_udp_receive(&mut self)
        ensures
            *final(self) == old(self).udp_receive_starved(),
    {
        self.udp_rx_errors = self.udp_rx_errors.saturating_add(1);
        self.udp_rx_enobufs = self.udp_rx_enobufs.saturating_add(1);
    }

    pub open spec fn tun_received(self, length: nat) -> IoCounters {
        IoCounters {
            tun_rx_packets: more(self.tun_rx_packets, 1),
            tun_rx_bytes: grown(self.tun_rx_bytes, length),
            ..self
        }
    }

    /// The tunnel gave a packet.
    pub fn receive_tun(&mut self, length: usize)
        ensures
            *final(self) == old(self).tun_received(length as nat),
    {
        self.tun_rx_packets = self.tun_rx_packets.saturating_add(1);
        self.tun_rx_bytes = self.tun_rx_bytes.saturating_add(length as u64);
    }

    pub open spec fn tun_receive_failed(self) -> IoCounters {
        IoCounters {
            tun_rx_errors: more(self.tun_rx_errors, 1),
            ..self
        }
    }

    /// The tunnel could not be read.
    pub fn fail_tun_receive(&mut self)
        ensures
            *final(self) == old(self).tun_receive_failed(),
    {
        self.tun_rx_errors = self.tun_rx_errors.saturating_add(1);
    }

    pub open spec fn woken(self) -> IoCounters {
        IoCounters {
            readiness_wakeups: more(self.readiness_wakeups, 1),
            ..self
        }
    }

    /// Something became ready.
    pub fn wake(&mut self)
        ensures
            *final(self) == old(self).woken(),
    {
        self.readiness_wakeups = self.readiness_wakeups.saturating_add(1);
    }

    pub open spec fn batch_sent(self, partial: bool) -> IoCounters {
        IoCounters {
            udp_send_syscalls: more(self.udp_send_syscalls, 1),
            partial_sendmmsg: if partial {
                more(self.partial_sendmmsg, 1)
            } else {
                self.partial_sendmmsg
            },
            ..self
        }
    }

    /// A batch of datagrams was sent, wholly or in part.
    pub fn send_batch(&mut self, partial: bool)
        ensures
            *final(self) == old(self).batch_sent(partial),
    {
        self.udp_send_syscalls = self.udp_send_syscalls.saturating_add(1);
        if partial {
            self.partial_sendmmsg = self.partial_sendmmsg.saturating_add(1);
        }
    }

    pub open spec fn batch_received(self, batch: nat) -> IoCounters {
        IoCounters {
            udp_recv_syscalls: more(self.udp_recv_syscalls, 1),
            udp_recv_batch_max: if batch > self.udp_recv_batch_max {
                batch as u64
            } else {
                self.udp_recv_batch_max
            },
            ..self
        }
    }

    /// A batch of datagrams was received.
    pub fn receive_batch(&mut self, batch: usize)
        ensures
            *final(self) == old(self).batch_received(batch as nat),
    {
        self.udp_recv_syscalls = self.udp_recv_syscalls.saturating_add(1);
        if batch as u64 > self.udp_recv_batch_max {
            self.udp_recv_batch_max = batch as u64;
        }
    }

    pub open spec fn switched(self) -> IoCounters {
        IoCounters {
            udp_datagram_mode: UdpDatagramMode::Compat,
            udp_datagram_mode_switches: more(self.udp_datagram_mode_switches, 1),
            ..self
        }
    }

    /// Datagrams are handled one at a time from now on.
    pub fn switch(&mut self)
        ensures
            *final(self) == old(self).switched(),
    {
        self.udp_datagram_mode = UdpDatagramMode::Compat;
        self.udp_datagram_mode_switches = self.udp_datagram_mode_switches.saturating_add(1);
    }
}

/// What a setting asks for, and whether it is one that is not known.
pub open spec fn mode_spec(setting: Option<Seq<char>>) -> (UdpDatagramMode, bool) {
    match setting {
        None => (UdpDatagramMode::Batch, false),
        Some(text) => {
            let value = trimmed(text);
            if value == "compat"@ {
                (UdpDatagramMode::Compat, false)
            } else {
                (
                    UdpDatagramMode::Batch,
                    value.len() > 0 && value != "auto"@ && value != "batch"@,
                )
            }
        },
    }
}

/// The mode that a setting asks for; batches where it is not known, which the
/// second part tells.
pub fn configured_udp_datagram_mode(setting: Option<&str>) -> (r: (UdpDatagramMode, bool))
    ensures
        r == mode_spec(
            match setting {
                Some(text) => Some(text@),
                None => None,
            },
        ),
{
    match setting {
        None => (UdpDatagramMode::Batch, false),
        Some(text) => {
            let chars = chars_of(text);
            let value = trim(chars.as_slice());
            if spells(value, "compat") {
                return (UdpDatagramMode::Compat, false);
            }
            let known = value.len() == 0 || spells(value, "auto") || spells(value, "batch");
            (UdpDatagramMode::Batch, !known)
        },
    }
}

pub open spec fn unavailable_spec(code: Option<i32>) -> bool {
    match code {
        Some(code) => code == 38 || code == 1 || code == 13 || code == 95 || code == 22,
        None => false,
    }
}

/// Whether an error means that the system cannot do batches: the call is unknown,
/// not permitted, refused, not supported or invalid.
pub fn batch_syscall_unavailable(code: Option<i32>) -> (r: bool)
    ensures
        r == unavailable_spec(code),
{
    match code {
        Some(code) => code == 38 || code == 1 || code == 13 || code == 95 || code == 22,
        None => false,
    }
}

} // verus!
