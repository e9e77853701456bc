//! The server's sockets: what is asked of the system, and what follows from its
//! answers.

use vstd::prelude::*;
use crate::net::{IpAddress, SocketAddress};
use crate::server::io_counters::{
    batch_syscall_unavailable, unavailable_spec, IoCounters, UdpDatagramMode,
};
use crate::server::packet::PACKET_CAPACITY;
use crate::server::packet_sink::{Outgoing, PacketSink, Returned, SinkModel, TunWrite};
use crate::server::pktinfo::{destination_spec, parse_ipv4_pktinfo_destination};

verus! {

pub const TICK_INTERVAL_MS: u64 = 100;
pub const MAX_DATAGRAMS: usize = 128;
pub const MAX_RX_PER_PASS: usize = 128;
pub const TUN_RX_DRAIN_BATCH: usize = 128;
pub const URGENCY_FLUSH_SYSCALLS: usize = 1;
pub const UDP_RECV_BUFFER_BYTES: usize = 16777216;
pub const UDP_SEND_BUFFER_BYTES: usize = 8388608;

/// The system has no room for a datagram.
pub const NO_BUFFERS: i32 = 105;

/// How a call of the system failed.
#[derive(Clone, Copy, Debug, PartialEq, Eq, Structural)]
pub struct IoFailure {
    pub code: Option<i32>,
    pub would_block: bool,
}

/// What came of sending a batch: the bytes that went out of each datagram that
/// was taken.
pub enum SendOutcome {
    Sent(Vec<usize>),
    Failed(IoFailure),
}

/// What came of receiving a batch.
#[derive(Clone, Copy, Debug, PartialEq, Eq, Structural)]
pub enum RecvOutcome {
    Got(usize),
    Failed(IoFailure),
}

#[derive(Clone, Copy, Debug, PartialEq, Eq, Structural)]
pub enum RxOutcome {
    Batch(usize),
    Drained,
}

/// What follows from an attempt to receive.
#[derive(Clone, Copy, Debug, PartialEq, Eq, Structural)]
pub enum RecvStep {
    Again,
    Done(RxOutcome),
}

/// A datagram that came in.
#[derive(Clone, Copy, Debug, PartialEq, Eq, Structural)]
pub struct Arrival {
    pub peer: SocketAddress,
    pub local_ip: Option<IpAddress>,
}

/// What came of reading the tunnel.
#[derive(Clone, Copy, Debug, PartialEq, Eq, Structural)]
pub enum TunRead {
    Got(usize),
    WouldBlock,
    Failed,
}

/// What follows from reading the tunnel.
#[derive(Clone, Copy, Debug, PartialEq, Eq, Structural)]
pub enum TunStep {
    Packet,
    Nothing,
    Failed,
    EndOfFile,
}

#[verifier::ext_equal]
pub struct IoModel {
    pub sink: SinkModel,
    pub mode: UdpDatagramMode,
}

impl IoModel {
    pub open spec fn counting(self, counters: IoCounters) -> IoModel {
        IoModel { sink: self.sink.counting(counters), ..self }
    }

    /// Datagrams go one at a time from now on.
    pub open spec fn switched(self) -> IoModel {
        IoModel {
            mode: UdpDatagramMode::Compat,
            sink: self.sink.counting(self.sink.counters.switched()),
        }
    }

    /// The datagrams that go out in one call.
    pub open spec fn udp_batch(self) -> nat {
        self.sink.udp.batch_len(
            match self.mode {
                UdpDatagramMode::Compat => 1,
                UdpDatagramMode::Batch => self.sink.udp.urgent().batch_spec() as nat,
            },
        )
    }

    /// One datagram went out.
    pub open spec fn one_sent(self, length: usize) -> IoModel {
        if self.sink.udp.next() is None {
            self
        } else {
            IoModel {
                sink: self.sink.counting(self.sink.counters.udp_sent(length as nat)).udp_done(),
                ..self
            }
        }
    }

    /// Datagrams went out, in the order in which they waited.
    pub open spec fn all_sent(self, lengths: Seq<usize>) -> IoModel
        decreases lengths.len(),
    {
        if lengths.len() == 0 {
            self
        } else {
            self.all_sent(lengths.drop_last()).one_sent(lengths.last())
        }
    }

    /// A batch was handed to the system.
    pub open spec fn flushed(self, batch: nat, outcome: SendOutcome) -> (IoModel, bool) {
        let counters = self.sink.counters;
        match outcome {
            SendOutcome::Sent(lengths) => {
                if lengths@.len() == 0 {
                    (self.counting(counters.udp_send_blocked()), false)
                } else {
                    (
                        self.counting(counters.batch_sent(lengths@.len() < batch)).all_sent(
                            lengths@,
                        ),
                        true,
                    )
                }
            },
            SendOutcome::Failed(failure) => {
                if failure.code == Some(NO_BUFFERS) {
                    (self.counting(counters.udp_send_starved()), false)
                } else if self.mode is Batch && unavailable_spec(failure.code) {
                    (self.switched(), true)
                } else if failure.would_block {
                    (self.counting(counters.udp_send_blocked()), false)
                } else {
                    (
                        IoModel {
                            sink: self.sink.counting(counters.udp_send_failed()).udp_done(),
                            ..self
                        },
                        true,
                    )
                }
            },
        }
    }

    /// Receiving was tried.
    pub open spec fn received(self, outcome: RecvOutcome) -> (IoModel, RecvStep) {
        let counters = self.sink.counters;
        match outcome {
            RecvOutcome::Failed(failure) => {
                if self.mode is Batch && unavailable_spec(failure.code) {
                    (self.switched(), RecvStep::Again)
                } else if failure.would_block {
                    (
                        self.counting(counters.udp_receive_blocked()),
                        RecvStep::Done(RxOutcome::Drained),
                    )
                } else if failure.code == Some(NO_BUFFERS) {
                    (
                        self.counting(counters.udp_receive_starved()),
                        RecvStep::Done(RxOutcome::Drained),
                    )
                } else {
                    (
                        self.counting(counters.udp_receive_failed()),
                        RecvStep::Done(RxOutcome::Drained),
                    )
                }
            },
            RecvOutcome::Got(batch) => {
                if batch == 0 {
                    (self, RecvStep::Done(RxOutcome::Drained))
                } else {
                    (
                        self.counting(counters.batch_received(batch as nat)),
                        RecvStep::Done(RxOutcome::Batch(batch)),
                    )
                }
            },
        }
    }

    /// One datagram of a batch is looked at.
    pub open spec fn arrived(
        self,
        truncated: bool,
        length: nat,
        peer: Option<SocketAddress>,
        control: Seq<u8>,
    ) -> (IoModel, Option<Arrival>) {
        let counters = self.sink.counters;
        if truncated || length > PACKET_CAPACITY {
            (self.counting(counters.udp_receive_failed()), None)
        } else {
            match peer {
                None => (self, None),
                Some(peer) => (
                    self.counting(counters.udp_received(length)),
                    Some(
                        Arrival {
                            peer,
                            local_ip: match destination_spec(control) {
                                Some(ip) => Some(IpAddress::V4(ip)),
                                None => None,
                            },
                        },
                    ),
                ),
            }
        }
    }

    /// The tunnel was read.
    pub open spec fn tun_read(self, outcome: TunRead) -> (IoModel, TunStep) {
        let counters = self.sink.counters;
        match outcome {
            TunRead::WouldBlock => (self, TunStep::Nothing),
            TunRead::Failed => (self.counting(counters.tun_receive_failed()), TunStep::Failed),
            TunRead::Got(length) => {
                if length == 0 {
                    (self.counting(counters.tun_receive_failed()), TunStep::EndOfFile)
                } else if length > PACKET_CAPACITY {
                    (self.counting(counters.tun_receive_failed()), TunStep::Nothing)
                } else {
                    (self.counting(counters.tun_received(length as nat)), TunStep::Packet)
                }
            },
        }
    }

    /// The packet that waits first was written to the tunnel.
    pub open spec fn tun_flushed(self, written: TunWrite) -> (IoModel, bool) {
        match (self.sink.tun.next(), written) {
            (None, _) => (self, false),
            (Some(_), TunWrite::WouldBlock) => (self, false),
            (Some(_), TunWrite::Failed) => (
                IoModel { sink: self.sink.tun_failed().tun_done(), ..self },
                false,
            ),
            (Some(item), TunWrite::Done) => (
                IoModel { sink: self.sink.tun_written(item.packet@.len).tun_done(), ..self },
                true,
            ),
        }
    }

    /// What is reported: the counters with what is free and pooled now.
    pub open spec fn snapshot(self) -> IoCounters {
        IoCounters {
            udp_datagram_mode: self.mode,
            free_udp_tx_slots: self.sink.udp.free as u64,
            free_tun_tx_slots: self.sink.tun.free as u64,
            packet_pool_capacity: self.sink.pool.capacity as u64,
            packet_pool_allocated: self.sink.pool.allocated as u64,
            packet_pool_retained: self.sink.pool.idle.len() as u64,
            ..self.sink.counters
        }
    }
}

/// The state behind the server's sockets.
pub struct TokioIo {
    sink: PacketSink,
    mode: UdpDatagramMode,
}

impl View for TokioIo {
    type V = IoModel;

    closed spec fn view(&self) -> IoModel {
        IoModel { sink: self.sink@, mode: self.mode }
    }
}

impl TokioIo {
    pub closed spec fn wf(&self) -> bool {
        self.sink.wf()
    }

    pub proof fn lemma_model_wf(&self)
        requires
            self.wf(),
        ensures
            self@.sink.wf(),
    {
        self.sink.lemma_model_wf();
    }

    pub fn new(mode: UdpDatagramMode) -> (r: TokioIo)
        ensures
            r.wf(),
            r@.mode == mode,
            r@.sink.counters == IoCounters::zero(mode),
            r@.sink.udp.free == crate::server::packet::UDP_TX_SLOTS,
            r@.sink.tun.free == crate::server::packet::TUN_TX_SLOTS,
            r@.sink.udp.pending() == 0,
            r@.sink.tun.pending() == 0,
            r@.sink.pool.out() == 0,
            r@.sink.pool.capacity == crate::server::packet::UDP_TX_SLOTS
                + crate::server::packet::TUN_TX_SLOTS,
            r@.sink.pool.allocated == 0,
            r@.sink.returned.len() == 0,
            !r@.sink.tun_fatal,
            !r@.sink.urgent,
    {
        let mut counters = IoCounters::default();
        counters.udp_datagram_mode = mode;
        let sink = PacketSink::new(counters);
        proof {
            sink.lemma_model_wf();
        }
        TokioIo { sink, mode }
    }

    /// Where packets are handed in.
    pub fn with_sink(&mut self) -> (r: &mut PacketSink)
        requires
            old(self).wf(),
        ensures
            r.wf(),
            r@ == old(self)@.sink,
            final(self)@ == (IoModel { sink: final(r)@, ..old(self)@ }),
            final(r).wf() ==> final(self).wf(),
    {
        &mut self.sink
    }

    /// Whether what was handed in asked for a flush.
    pub fn take_urgent(&mut self) -> (r: bool)
        requires
            old(self).wf(),
        ensures
            final(self).wf(),
            r == old(self)@.sink.urgent,
            final(self)@ == (IoModel {
                sink: SinkModel { urgent: false, ..old(self)@.sink },
                ..old(self)@
            }),
    {
        self.sink.take_urgent()
    }

    /// The buffers that go back to the session workers.
    pub fn take_returned(&mut self) -> (r: Vec<Returned>)
        requires
            old(self).wf(),
        ensures
            final(self).wf(),
            r@ == old(self)@.sink.returned,
            final(self)@ == (IoModel {
                sink: SinkModel { returned: Seq::empty(), ..old(self)@.sink },
                ..old(self)@
            }),
    {
        self.sink.take_returned()
    }

    /// How many datagrams to ask for at once.
    pub fn receive_limit(&self, budget: usize) -> (r: usize)
        ensures
            r == match self@.mode {
                UdpDatagramMode::Compat => 1,
                UdpDatagramMode::Batch => if budget < 1 {
                    1
                } else if budget < MAX_DATAGRAMS {
                    budget
                } else {
                    MAX_DATAGRAMS
                },
            },
    {
        match self.mode {
            UdpDatagramMode::Compat => 1,
            UdpDatagramMode::Batch => {
                if budget < 1 {
                    1
                } else if budget < MAX_DATAGRAMS {
                    budget
                } else {
                    MAX_DATAGRAMS
                }
            },
        }
    }

    fn switch_to_compat_udp_io(&mut self)
        requires
            old(self).wf(),
            old(self)@.mode is Batch,
        ensures
            final(self).wf(),
            final(self)@ == old(self)@.switched(),
    {
        self.mode = UdpDatagramMode::Compat;
        self.sink.count().switch();
    }

    /// Takes note of an attempt to receive. Where the system cannot do batches
    /// it is tried again, one datagram at a time.
    pub fn dispatch_udp_rx(&mut self, outcome: RecvOutcome) -> (r: RecvStep)
        requires
            old(self).wf(),
        ensures
            final(self).wf(),
            (final(self)@, r) == old(self)@.received(outcome),
    {
        match outcome {
            RecvOutcome::Failed(failure) => {
                if self.mode == UdpDatagramMode::Batch && batch_syscall_unavailable(failure.code) {
                    self.switch_to_compat_udp_io();
                    return RecvStep::Again;
                }
                if failure.would_block {
                    self.sink.count().block_udp_receive();
                    return RecvStep::Done(RxOutcome::Drained);
                }
                let starved = match failure.code {
                    Some(code) => code == NO_BUFFERS,
                    None => false,
                };
                if starved {
                    self.sink.count().starve_udp_receive();
                } else {
                    self.sink.count().fail_udp_receive();
                }
                RecvStep::Done(RxOutcome::Drained)
            },
            RecvOutcome::Got(batch) => {
                if batch == 0 {
                    return RecvStep::Done(RxOutcome::Drained);
                }
                self.sink.count().receive_batch(batch);
                RecvStep::Done(RxOutcome::Batch(batch))
            },
        }
    }

    /// Looks at one datagram of a batch; where it is to be handled, from whom it
    /// came and on which address.
    pub fn arrival(
        &mut self,
        truncated: bool,
        length: usize,
        peer: Option<SocketAddress>,
        control: &[u8],
    ) -> (r: Option<Arrival>)
        requires
            old(self).wf(),
        ensures
            final(self).wf(),
            (final(self)@, r) == old(self)@.arrived(truncated, length as nat, peer, control@),
    {
        if truncated || length > PACKET_CAPACITY {
            self.sink.count().fail_udp_receive();
            return None;
        }
        match peer {
            None => None,
            Some(peer) => {
                let local_ip = match parse_ipv4_pktinfo_destination(control) {
                    Some(ip) => Some(IpAddress::V4(ip)),
                    None => None,
                };
                self.sink.count().receive_udp(length);
                Some(Arrival { peer, local_ip })
            },
        }
    }

    /// Takes note of a read of the tunnel.
    pub fn read_tun_rx(&mut self, outcome: TunRead) -> (r: TunStep)
        requires
            old(self).wf(),
        ensures
            final(self).wf(),
            (final(self)@, r) == old(self)@.tun_read(outcome),
    {
        match outcome {
            TunRead::WouldBlock => TunStep::Nothing,
            TunRead::Failed => {
                self.sink.count().fail_tun_receive();
                TunStep::Failed
            },
            TunRead::Got(length) => {
                if length == 0 {
                    self.sink.count().fail_tun_receive();
                    return TunStep::EndOfFile;
                }
                if length > PACKET_CAPACITY {
                    self.sink.count().fail_tun_receive();
                    return TunStep::Nothing;
                }
                self.sink.count().receive_tun(length);
                TunStep::Packet
            },
        }
    }

    pub fn pending_udp_tx_len(&self) -> (r: usize)
        requires
            self.wf(),
        ensures
            r == self@.sink.udp.pending(),
    {
        self.sink.udp_queue().pending_len()
    }

    pub fn pending_tun_tx_len(&self) -> (r: usize)
        requires
            self.wf(),
        ensures
            r == self@.sink.tun.pending(),
    {
        self.sink.tun_queue().pending_len()
    }

    /// How many datagrams to send next, while some wait and another call may be
    /// made.
    pub fn next_udp_batch(&self, syscalls: usize, max_syscalls: usize) -> (r: Option<usize>)
        requires
            self.wf(),
        ensures
            match r {
                Some(batch) => {
                    &&& self@.sink.udp.pending() > 0
                    &&& syscalls < max_syscalls
                    &&& batch == self@.udp_batch()
                    &&& batch > 0
                },
                None => self@.sink.udp.pending() == 0 || syscalls >= max_syscalls,
            },
    {
        let queue = self.sink.udp_queue();
        if queue.pending_len() == 0 || syscalls >= max_syscalls {
            return None;
        }
        let limit: usize = match self.mode {
            UdpDatagramMode::Compat => 1,
            UdpDatagramMode::Batch => queue.urgent().datagram_batch(),
        };
        Some(queue.batch_len(limit))
    }

    /// A datagram of the next batch.
    pub fn udp_at(&self, index: usize) -> (r: Option<&Outgoing>)
        requires
            self.wf(),
        ensures
            match r {
                Some(item) => {
                    &&& index < self@.sink.udp.lane(self@.sink.udp.urgent()).len()
                    &&& *item == self@.sink.udp.lane(self@.sink.udp.urgent())[index as int]
                },
                None => index >= self@.sink.udp.lane(self@.sink.udp.urgent()).len(),
            },
    {
        self.sink.udp_queue().peek(index)
    }

    /// Takes note of a batch that was handed to the system, and tells whether to
    /// go on.
    pub fn flush_udp_tx(&mut self, batch: usize, outcome: SendOutcome) -> (r: bool)
        requires
            old(self).wf(),
        ensures
            final(self).wf(),
            (final(self)@, r) == old(self)@.flushed(batch as nat, outcome),
    {
        let ghost before = self@;
        match outcome {
            SendOutcome::Failed(failure) => {
                let starved = match failure.code {
                    Some(code) => code == NO_BUFFERS,
                    None => false,
                };
                if starved {
                    self.sink.count().starve_udp_send();
                    return false;
                }
                if self.mode == UdpDatagramMode::Batch && batch_syscall_unavailable(failure.code) {
                    self.switch_to_compat_udp_io();
                    return true;
                }
                if failure.would_block {
                    self.sink.count().block_udp_send();
                    return false;
                }
                self.sink.count().fail_udp_send();
                let _ = self.sink.finish_udp();
                true
            },
            SendOutcome::Sent(lengths) => {
                if lengths.len() == 0 {
                    self.sink.count().block_udp_send();
                    return false;
                }
                self.sink.count().send_batch(lengths.len() < batch);
                let ghost counted = self@;
                let mut i: usize = 0;
                assert(lengths@.take(0) =~= Seq::empty());
                while i < lengths.len()
                    invariant
                        self.wf(),
                        i <= lengths@.len(),
                        self@ == counted.all_sent(lengths@.take(i as int)),
                    decreases lengths@.len() - i,
                {
                    let ghost now = self@;
                    if self.sink.udp_queue().pending_len() > 0 {
                        self.sink.count().send_udp(lengths[i]);
                        let _ = self.sink.finish_udp();
                    }
                    proof {
                        let done = lengths@.take(i + 1);
                        assert(done.drop_last() =~= lengths@.take(i as int));
                        assert(done.last() == lengths@[i as int]);
                        assert(self@ =~= now.one_sent(lengths@[i as int]));
                    }
                    i = i + 1;
                }
                assert(lengths@.take(i as int) =~= lengths@);
                true
            },
        }
    }

    /// The packet that goes to the tunnel next.
    pub fn next_tun(&self) -> (r: Option<&Outgoing>)
        requires
            self.wf(),
        ensures
            match r {
                Some(item) => self@.sink.tun.next() == Some(*item) && item.packet.wf(),
                None => self@.sink.tun.next() is None,
            },
    {
        proof {
            self.sink.lemma_model_wf();
        }
        self.sink.tun_queue().front()
    }

    /// Takes note of a write of the packet that waits first, and tells whether
    /// to go on.
    pub fn flush_tun_tx(&mut self, written: TunWrite) -> (r: bool)
        requires
            old(self).wf(),
        ensures
            final(self).wf(),
            (final(self)@, r) == old(self)@.tun_flushed(written),
    {
        let length: usize = match self.next_tun() {
            Some(item) => item.packet.len(),
            None => {
                return false;
            },
        };
        match written {
            TunWrite::WouldBlock => false,
            TunWrite::Failed => {
                self.sink.fail_tun();
                let _ = self.sink.finish_tun();
                false
            },
            TunWrite::Done => {
                self.sink.count().send_tun(length);
                let _ = self.sink.finish_tun();
                true
            },
        }
    }

    /// Whether the tunnel failed, which is then taken as heard.
    pub fn take_tun_fatal(&mut self) -> (r: bool)
        requires
            old(self).wf(),
        ensures
            final(self).wf(),
            r == old(self)@.sink.tun_fatal,
            final(self)@ == (IoModel {
                sink: SinkModel { tun_fatal: false, ..old(self)@.sink },
                ..old(self)@
            }),
    {
        self.sink.take_tun_fatal()
    }

    pub fn note_readiness_wakeup(&mut self)
        requires
            old(self).wf(),
        ensures
            final(self).wf(),
            final(self)@ == old(self)@.counting(old(self)@.sink.counters.woken()),
    {
        self.sink.count().wake();
    }

    pub fn counters_snapshot(&self) -> (r: IoCounters)
        requires
            self.wf(),
        ensures
            r == self@.snapshot(),
    {
        let mut counters = self.sink.counters();
        counters.udp_datagram_mode = self.mode;
        counters.free_udp_tx_slots = self.sink.udp_queue().free_len() as u64;
        counters.free_tun_tx_slots = self.sink.tun_queue().free_len() as u64;
        let pool = self.sink.pool_snapshot();
        counters.packet_pool_capacity = pool.capacity as u64;
        counters.packet_pool_allocated = pool.allocated as u64;
        counters.packet_pool_retained = pool.retained as u64;
        counters
    }
}

/// How often the tunnel is tried to be made.
pub const TUN_CREATE_ATTEMPTS: u64 = 8;

/// Whether a failure to make the tunnel may pass: it exists or is busy, its
/// address is taken, it is not there yet, or the call was cut short.
pub fn is_tun_create_retryable(code: Option<i32>) -> (r: bool)
    ensures
        r == match code {
            Some(code) => code == 17 || code == 16 || code == 98 || code == 2 || code == 19 || code
                == 11 || code == 4,
            None => false,
        },
{
    match code {
        Some(code) => {
            code == 17 || code == 16 || code == 98 || code == 2 || code == 19 || code == 11 || code
                == 4
        },
        None => false,
    }
}

/// How long to rest after a failed attempt to make the tunnel, in milliseconds.
pub fn tun_create_delay(attempt: u64) -> (r: u64)
    requires
        attempt < TUN_CREATE_ATTEMPTS,
    ensures
        r == 40 + attempt * 40,
{
    40 + attempt * 40
}

/// What was sent is what waited first: every length takes one datagram out, as
/// long as some wait, and no slot is lost.
pub proof fn law_flush_takes_the_first(io: IoModel, lengths: Seq<usize>)
    ensures
        io.all_sent(lengths).sink.udp.capacity() == io.sink.udp.capacity(),
        io.all_sent(lengths).sink.udp.pending() == if lengths.len() < io.sink.udp.pending() {
            (io.sink.udp.pending() - lengths.len()) as nat
        } else {
            0
        },
        io.all_sent(lengths).sink.tun == io.sink.tun,
        io.all_sent(lengths).mode == io.mode,
    decreases lengths.len(),
{
    if lengths.len() > 0 {
        law_flush_takes_the_first(io, lengths.drop_last());
        let before = io.all_sent(lengths.drop_last());
        let counted = before.sink.counting(before.sink.counters.udp_sent(lengths.last() as nat));
        assert(counted.udp == before.sink.udp);
    }
}

/// Once batches were found not to work they are never tried again, and the
/// change is made only for an error that says so.
pub proof fn law_compatibility_is_for_good(io: IoModel, batch: nat, sent: SendOutcome, got: RecvOutcome)
    ensures
        io.mode is Compat ==> io.flushed(batch, sent).0.mode is Compat && io.received(
            got,
        ).0.mode is Compat,
        io.mode is Batch && io.flushed(batch, sent).0.mode is Compat ==> (sent matches
            SendOutcome::Failed(failure) && unavailable_spec(failure.code)),
        io.mode is Batch && io.received(got).0.mode is Compat ==> (got matches RecvOutcome::Failed(
            failure,
        ) && unavailable_spec(failure.code)),
{
    if let SendOutcome::Sent(lengths) = sent {
        let counted = io.counting(io.sink.counters.batch_sent(lengths@.len() < batch));
        law_flush_takes_the_first(counted, lengths@);
    }
}

/// A failure that may pass leaves every datagram waiting.
pub proof fn law_blocked_send_keeps_the_queue(io: IoModel, batch: nat, failure: IoFailure)
    requires
        failure.would_block || failure.code == Some(NO_BUFFERS) || (io.mode is Batch
            && unavailable_spec(failure.code)),
    ensures
        io.flushed(batch, SendOutcome::Failed(failure)).0.sink.udp == io.sink.udp,
        io.flushed(batch, SendOutcome::Failed(failure)).0.sink.pool == io.sink.pool,
{
}

} // verus!
