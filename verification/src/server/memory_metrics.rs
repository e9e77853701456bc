//! What the server knows of the memory that it uses.

use vstd::prelude::*;
use std::collections::BTreeSet;
use crate::server::io_counters::{IoCounters, UdpDatagramMode};
use crate::server::packet::{PACKET_CAPACITY, TUN_TX_SLOTS, UDP_TX_SLOTS};
use crate::server::perf::{less, more};
use crate::server::proc_text::{
    kib_spec, limit_spec, limit_text, number_spec, number_text, parse_socket_table, proc_kib,
    stat_spec, table_spec, text_view, value_of, StatTable,
};
use crate::server::tokio_io::{MAX_DATAGRAMS, UDP_RECV_BUFFER_BYTES, UDP_SEND_BUFFER_BYTES};
use crate::text::copy_text;

verus! {

/// How often the figures are taken, in milliseconds.
pub const METRIC_SAMPLE_INTERVAL: u64 = 2_000;

/// What the system tells of this process.
#[derive(Clone, Copy, Debug, PartialEq, Eq, Structural)]
pub struct ProcessMemory {
    pub available: bool,
    pub rss_kib: u64,
    pub peak_rss_kib: u64,
    pub anonymous_kib: u64,
    pub file_kib: u64,
    pub shmem_kib: u64,
    pub swap_kib: u64,
    pub threads: u64,
}

impl Default for ProcessMemory {
    fn default() -> (r: ProcessMemory)
        ensures
            !r.available,
            r.rss_kib == 0,
            r.peak_rss_kib == 0,
            r.anonymous_kib == 0,
            r.file_kib == 0,
            r.shmem_kib == 0,
            r.swap_kib == 0,
            r.threads == 0,
    {
        ProcessMemory {
            available: false,
            rss_kib: 0,
            peak_rss_kib: 0,
            anonymous_kib: 0,
            file_kib: 0,
            shmem_kib: 0,
            swap_kib: 0,
            threads: 0,
        }
    }
}

/// What the system tells of its mappings together.
#[derive(Clone, Copy, Debug, PartialEq, Eq, Structural)]
pub struct SmapsRollup {
    pub available: bool,
    pub rss_kib: u64,
    pub pss_kib: u64,
    pub pss_anon_kib: u64,
    pub pss_file_kib: u64,
    pub pss_shmem_kib: u64,
    pub anonymous_kib: u64,
    pub private_kib: u64,
    pub shared_kib: u64,
    pub swap_kib: u64,
    pub swap_pss_kib: u64,
}

impl Default for SmapsRollup {
    fn default() -> (r: SmapsRollup)
        ensures
            !r.available,
            r.rss_kib == 0,
            r.pss_kib == 0,
            r.pss_anon_kib == 0,
            r.pss_file_kib == 0,
            r.pss_shmem_kib == 0,
            r.anonymous_kib == 0,
            r.private_kib == 0,
            r.shared_kib == 0,
            r.swap_kib == 0,
            r.swap_pss_kib == 0,
    {
        SmapsRollup {
            available: false,
            rss_kib: 0,
            pss_kib: 0,
            pss_anon_kib: 0,
            pss_file_kib: 0,
            pss_shmem_kib: 0,
            anonymous_kib: 0,
            private_kib: 0,
            shared_kib: 0,
            swap_kib: 0,
            swap_pss_kib: 0,
        }
    }
}

/// One kind of mapping.
#[derive(Debug)]
pub struct MappingMemory {
    pub category: String,
    pub rss_kib: u64,
    pub pss_kib: u64,
    pub private_kib: u64,
    pub shared_kib: u64,
}

impl Default for MappingMemory {
    fn default() -> (r: MappingMemory)
        ensures
            r.category@.len() == 0,
            r.rss_kib == 0,
            r.pss_kib == 0,
            r.private_kib == 0,
            r.shared_kib == 0,
    {
        MappingMemory {
            category: String::new(),
            rss_kib: 0,
            pss_kib: 0,
            private_kib: 0,
            shared_kib: 0,
        }
    }
}

/// The kinds of mappings, the largest first.
#[derive(Debug)]
pub struct MappingMemorySnapshot {
    pub available: bool,
    pub categories: Vec<MappingMemory>,
}

impl Default for MappingMemorySnapshot {
    fn default() -> (r: MappingMemorySnapshot)
        ensures
            !r.available,
            r.categories@.len() == 0,
    {
        MappingMemorySnapshot {
            available: false,
            categories: Vec::new(),
        }
    }
}

/// What the control group uses.
#[derive(Debug)]
pub struct CgroupMemory {
    pub available: bool,
    pub version: String,
    pub current_bytes: u64,
    pub peak_bytes: u64,
    pub max_bytes: Option<u64>,
    pub swap_current_bytes: Option<u64>,
    pub swap_max_bytes: Option<u64>,
    pub anon_bytes: u64,
    pub file_bytes: u64,
    pub shmem_bytes: u64,
    pub sock_bytes: u64,
    pub kernel_stack_bytes: u64,
    pub pagetables_bytes: u64,
    pub percpu_bytes: u64,
    pub slab_reclaimable_bytes: u64,
    pub slab_unreclaimable_bytes: u64,
    pub file_mapped_bytes: u64,
    pub file_dirty_bytes: u64,
}

impl Default for CgroupMemory {
    fn default() -> (r: CgroupMemory)
        ensures
            !r.available,
            r.version@.len() == 0,
            r.current_bytes == 0,
            r.peak_bytes == 0,
            r.max_bytes is None,
            r.swap_current_bytes is None,
            r.swap_max_bytes is None,
            r.anon_bytes == 0,
            r.file_bytes == 0,
            r.shmem_bytes == 0,
            r.sock_bytes == 0,
            r.kernel_stack_bytes == 0,
            r.pagetables_bytes == 0,
            r.percpu_bytes == 0,
            r.slab_reclaimable_bytes == 0,
            r.slab_unreclaimable_bytes == 0,
            r.file_mapped_bytes == 0,
            r.file_dirty_bytes == 0,
    {
        CgroupMemory {
            available: false,
            version: String::new(),
            current_bytes: 0,
            peak_bytes: 0,
            max_bytes: None,
            swap_current_bytes: None,
            swap_max_bytes: None,
            anon_bytes: 0,
            file_bytes: 0,
            shmem_bytes: 0,
            sock_bytes: 0,
            kernel_stack_bytes: 0,
            pagetables_bytes: 0,
            percpu_bytes: 0,
            slab_reclaimable_bytes: 0,
            slab_unreclaimable_bytes: 0,
            file_mapped_bytes: 0,
            file_dirty_bytes: 0,
        }
    }
}

/// What waits in the sockets of this process.
#[derive(Clone, Copy, Debug, PartialEq, Eq, Structural)]
pub struct SocketMemory {
    pub available: bool,
    pub socket_fds: u64,
    pub udp_sockets: u64,
    pub udp_tx_queue_bytes: u64,
    pub udp_rx_queue_bytes: u64,
    pub tcp_sockets: u64,
    pub tcp_tx_queue_bytes: u64,
    pub tcp_rx_queue_bytes: u64,
}

impl Default for SocketMemory {
    fn default() -> (r: SocketMemory)
        ensures
            !r.available,
            r.socket_fds == 0,
            r.udp_sockets == 0,
            r.udp_tx_queue_bytes == 0,
            r.udp_rx_queue_bytes == 0,
            r.tcp_sockets == 0,
            r.tcp_tx_queue_bytes == 0,
            r.tcp_rx_queue_bytes == 0,
    {
        SocketMemory {
            available: false,
            socket_fds: 0,
            udp_sockets: 0,
            udp_tx_queue_bytes: 0,
            udp_rx_queue_bytes: 0,
            tcp_sockets: 0,
            tcp_tx_queue_bytes: 0,
            tcp_rx_queue_bytes: 0,
        }
    }
}

/// The buffers for packets.
#[derive(Debug)]
pub struct FixedBufferMemory {
    pub packet_capacity_bytes: u64,
    pub packet_pool_capacity_slots: u64,
    pub packet_pool_allocated_slots: u64,
    pub packet_pool_retained_slots: u64,
    pub packet_pool_allocated_payload_bytes: u64,
    pub udp_tx_slots: u64,
    pub udp_tx_payload_bytes: u64,
    pub udp_tx_in_use_slots: u64,
    pub tun_tx_slots: u64,
    pub tun_tx_payload_bytes: u64,
    pub tun_tx_in_use_slots: u64,
    pub udp_rx_mode: String,
    pub udp_rx_slots: u64,
    pub udp_rx_slot_bytes: u64,
    pub udp_rx_payload_bytes: u64,
    pub tun_rx_payload_bytes: u64,
    pub fixed_payload_bytes: u64,
    pub udp_socket_rcvbuf_request_bytes: u64,
    pub udp_socket_sndbuf_request_bytes: u64,
}

impl Default for FixedBufferMemory {
    fn default() -> (r: FixedBufferMemory)
        ensures
            r.packet_capacity_bytes == 0,
            r.packet_pool_capacity_slots == 0,
            r.packet_pool_allocated_slots == 0,
            r.packet_pool_retained_slots == 0,
            r.packet_pool_allocated_payload_bytes == 0,
            r.udp_tx_slots == 0,
            r.udp_tx_payload_bytes == 0,
            r.udp_tx_in_use_slots == 0,
            r.tun_tx_slots == 0,
            r.tun_tx_payload_bytes == 0,
            r.tun_tx_in_use_slots == 0,
            r.udp_rx_mode@.len() == 0,
            r.udp_rx_slots == 0,
            r.udp_rx_slot_bytes == 0,
            r.udp_rx_payload_bytes == 0,
            r.tun_rx_payload_bytes == 0,
            r.fixed_payload_bytes == 0,
            r.udp_socket_rcvbuf_request_bytes == 0,
            r.udp_socket_sndbuf_request_bytes == 0,
    {
        FixedBufferMemory {
            packet_capacity_bytes: 0,
            packet_pool_capacity_slots: 0,
            packet_pool_allocated_slots: 0,
            packet_pool_retained_slots: 0,
            packet_pool_allocated_payload_bytes: 0,
            udp_tx_slots: 0,
            udp_tx_payload_bytes: 0,
            udp_tx_in_use_slots: 0,
            tun_tx_slots: 0,
            tun_tx_payload_bytes: 0,
            tun_tx_in_use_slots: 0,
            udp_rx_mode: String::new(),
            udp_rx_slots: 0,
            udp_rx_slot_bytes: 0,
            udp_rx_payload_bytes: 0,
            tun_rx_payload_bytes: 0,
            fixed_payload_bytes: 0,
            udp_socket_rcvbuf_request_bytes: 0,
            udp_socket_sndbuf_request_bytes: 0,
        }
    }
}

/// The files that the server keeps.
#[derive(Clone, Copy, Debug, PartialEq, Eq, Structural)]
pub struct PersistentStorage {
    pub sqlite_db_bytes: u64,
    pub sqlite_wal_bytes: u64,
    pub sqlite_shm_bytes: u64,
    pub log_file_bytes: u64,
}

impl Default for PersistentStorage {
    fn default() -> (r: PersistentStorage)
        ensures
            r.sqlite_db_bytes == 0,
            r.sqlite_wal_bytes == 0,
            r.sqlite_shm_bytes == 0,
            r.log_file_bytes == 0,
    {
        PersistentStorage {
            sqlite_db_bytes: 0,
            sqlite_wal_bytes: 0,
            sqlite_shm_bytes: 0,
            log_file_bytes: 0,
        }
    }
}

/// What the server itself holds.
#[derive(Debug)]
pub struct RuntimeMemory {
    pub allocator: String,
    pub public_sessions: u64,
    pub public_session_capacity: u64,
    pub hot_sessions: u64,
    pub hot_session_capacity: u64,
    pub hot_session_limit: u64,
    pub max_stream_workers_per_device: u64,
    pub engine_epochs: u64,
    pub device_epochs: u64,
    pub device_epoch_capacity: u64,
    pub derived_keys: u64,
    pub derived_key_string_capacity_bytes: u64,
    pub web_sessions: u64,
    pub web_session_limit: u64,
    pub web_session_key_capacity_bytes: u64,
    pub login_limits: u64,
    pub login_limit_limit: u64,
    pub login_limit_key_capacity_bytes: u64,
    pub log_entries: u64,
    pub log_entry_limit: u64,
    pub log_string_capacity_bytes: u64,
    pub log_ring_metadata_capacity_bytes: u64,
    pub dpi_entries: u64,
    pub dpi_entry_capacity: u64,
    pub dpi_retained_bytes: u64,
    pub stream_repairs: u64,
    pub stream_inventory: u64,
    pub dataplane_commands_queued: u64,
    pub dataplane_command_capacity: u64,
    pub local_proxy_active: bool,
    pub local_proxy_tcp_sessions: u64,
    pub local_proxy_udp_flows: u64,
    pub local_proxy_tcp_limit: u64,
    pub local_proxy_udp_limit: u64,
    pub local_proxy_payload_allocated_bytes: u64,
    pub local_proxy_payload_retained_bytes: u64,
    pub local_proxy_opening_buffer_allocated_bytes: u64,
    pub local_proxy_payload_upper_bound_at_limit_bytes: u64,
    pub memory_trim_count: u64,
    pub memory_trim_last_unix: u64,
}

impl Default for RuntimeMemory {
    fn default() -> (r: RuntimeMemory)
        ensures
            r.allocator@.len() == 0,
            r.public_sessions == 0,
            r.public_session_capacity == 0,
            r.hot_sessions == 0,
            r.hot_session_capacity == 0,
            r.hot_session_limit == 0,
            r.max_stream_workers_per_device == 0,
            r.engine_epochs == 0,
            r.device_epochs == 0,
            r.device_epoch_capacity == 0,
            r.derived_keys == 0,
            r.derived_key_string_capacity_bytes == 0,
            r.web_sessions == 0,
            r.web_session_limit == 0,
            r.web_session_key_capacity_bytes == 0,
            r.login_limits == 0,
            r.login_limit_limit == 0,
            r.login_limit_key_capacity_bytes == 0,
            r.log_entries == 0,
            r.log_entry_limit == 0,
            r.log_string_capacity_bytes == 0,
            r.log_ring_metadata_capacity_bytes == 0,
            r.dpi_entries == 0,
            r.dpi_entry_capacity == 0,
            r.dpi_retained_bytes == 0,
            r.stream_repairs == 0,
            r.stream_inventory == 0,
            r.dataplane_commands_queued == 0,
            r.dataplane_command_capacity == 0,
            !r.local_proxy_active,
            r.local_proxy_tcp_sessions == 0,
            r.local_proxy_udp_flows == 0,
            r.local_proxy_tcp_limit == 0,
            r.local_proxy_udp_limit == 0,
            r.local_proxy_payload_allocated_bytes == 0,
            r.local_proxy_payload_retained_bytes == 0,
            r.local_proxy_opening_buffer_allocated_bytes == 0,
            r.local_proxy_payload_upper_bound_at_limit_bytes == 0,
            r.memory_trim_count == 0,
            r.memory_trim_last_unix == 0,
    {
        RuntimeMemory {
            allocator: String::new(),
            public_sessions: 0,
            public_session_capacity: 0,
            hot_sessions: 0,
            hot_session_capacity: 0,
            hot_session_limit: 0,
            max_stream_workers_per_device: 0,
            engine_epochs: 0,
            device_epochs: 0,
            device_epoch_capacity: 0,
            derived_keys: 0,
            derived_key_string_capacity_bytes: 0,
            web_sessions: 0,
            web_session_limit: 0,
            web_session_key_capacity_bytes: 0,
            login_limits: 0,
            login_limit_limit: 0,
            login_limit_key_capacity_bytes: 0,
            log_entries: 0,
            log_entry_limit: 0,
            log_string_capacity_bytes: 0,
            log_ring_metadata_capacity_bytes: 0,
            dpi_entries: 0,
            dpi_entry_capacity: 0,
            dpi_retained_bytes: 0,
            stream_repairs: 0,
            stream_inventory: 0,
            dataplane_commands_queued: 0,
            dataplane_command_capacity: 0,
            local_proxy_active: false,
            local_proxy_tcp_sessions: 0,
            local_proxy_udp_flows: 0,
            local_proxy_tcp_limit: 0,
            local_proxy_udp_limit: 0,
            local_proxy_payload_allocated_bytes: 0,
            local_proxy_payload_retained_bytes: 0,
            local_proxy_opening_buffer_allocated_bytes: 0,
            local_proxy_payload_upper_bound_at_limit_bytes: 0,
            memory_trim_count: 0,
            memory_trim_last_unix: 0,
        }
    }
}

/// All the figures of one moment.
#[derive(Debug)]
pub struct MetricFrame {
    pub timestamp_ms: u64,
    pub pid: u32,
    pub error: String,
    pub process: ProcessMemory,
    pub smaps_rollup: SmapsRollup,
    pub mappings: MappingMemorySnapshot,
    pub cgroup: CgroupMemory,
    pub sockets: SocketMemory,
    pub fixed_buffers: FixedBufferMemory,
    pub storage: PersistentStorage,
    pub runtime: RuntimeMemory,
}

impl Default for MetricFrame {
    fn default() -> (r: MetricFrame)
        ensures
            r.timestamp_ms == 0,
            r.pid == 0,
            r.error@.len() == 0,
            call_ensures(ProcessMemory::default, (), r.process),
            call_ensures(SmapsRollup::default, (), r.smaps_rollup),
            call_ensures(MappingMemorySnapshot::default, (), r.mappings),
            call_ensures(CgroupMemory::default, (), r.cgroup),
            call_ensures(SocketMemory::default, (), r.sockets),
            call_ensures(FixedBufferMemory::default, (), r.fixed_buffers),
            call_ensures(PersistentStorage::default, (), r.storage),
            call_ensures(RuntimeMemory::default, (), r.runtime),
    {
        MetricFrame {
            timestamp_ms: 0,
            pid: 0,
            error: String::new(),
            process: ProcessMemory::default(),
            smaps_rollup: SmapsRollup::default(),
            mappings: MappingMemorySnapshot::default(),
            cgroup: CgroupMemory::default(),
            sockets: SocketMemory::default(),
            fixed_buffers: FixedBufferMemory::default(),
            storage: PersistentStorage::default(),
            runtime: RuntimeMemory::default(),
        }
    }
}

/// A number that may be missing.
pub open spec fn or_zero(value: Option<nat>) -> nat {
    match value {
        Some(value) => value,
        None => 0,
    }
}

fn kib_or_zero(text: &str, field: &str) -> (r: u64)
    ensures
        r == or_zero(kib_spec(text@, field@)),
{
    match proc_kib(text, field) {
        Some(value) => value,
        None => 0,
    }
}

/// The fields of `/proc/self/status`; one that is missing counts as zero.
pub fn parse_process_memory(text: &str) -> (r: ProcessMemory)
    ensures
        r.available,
        r.rss_kib == or_zero(kib_spec(text@, "VmRSS:"@)),
        r.peak_rss_kib == or_zero(kib_spec(text@, "VmHWM:"@)),
        r.anonymous_kib == or_zero(kib_spec(text@, "RssAnon:"@)),
        r.file_kib == or_zero(kib_spec(text@, "RssFile:"@)),
        r.shmem_kib == or_zero(kib_spec(text@, "RssShmem:"@)),
        r.swap_kib == or_zero(kib_spec(text@, "VmSwap:"@)),
        r.threads == or_zero(kib_spec(text@, "Threads:"@)),
{
    ProcessMemory {
        available: true,
        rss_kib: kib_or_zero(text, "VmRSS:"),
        peak_rss_kib: kib_or_zero(text, "VmHWM:"),
        anonymous_kib: kib_or_zero(text, "RssAnon:"),
        file_kib: kib_or_zero(text, "RssFile:"),
        shmem_kib: kib_or_zero(text, "RssShmem:"),
        swap_kib: kib_or_zero(text, "VmSwap:"),
        threads: kib_or_zero(text, "Threads:"),
    }
}

/// The fields of `/proc/self/smaps_rollup`; clean and dirty pages are told
/// together.
pub fn parse_smaps_rollup(text: &str) -> (r: SmapsRollup)
    ensures
        r.available,
        r.rss_kib == or_zero(kib_spec(text@, "Rss:"@)),
        r.pss_kib == or_zero(kib_spec(text@, "Pss:"@)),
        r.pss_anon_kib == or_zero(kib_spec(text@, "Pss_Anon:"@)),
        r.pss_file_kib == or_zero(kib_spec(text@, "Pss_File:"@)),
        r.pss_shmem_kib == or_zero(kib_spec(text@, "Pss_Shmem:"@)),
        r.anonymous_kib == or_zero(kib_spec(text@, "Anonymous:"@)),
        r.swap_kib == or_zero(kib_spec(text@, "Swap:"@)),
        r.swap_pss_kib == or_zero(kib_spec(text@, "SwapPss:"@)),
        r.private_kib == more(
            or_zero(kib_spec(text@, "Private_Clean:"@)) as u64,
            or_zero(kib_spec(text@, "Private_Dirty:"@)) as u64,
        ),
        r.shared_kib == more(
            or_zero(kib_spec(text@, "Shared_Clean:"@)) as u64,
            or_zero(kib_spec(text@, "Shared_Dirty:"@)) as u64,
        ),
{
    let private_clean: u64 = kib_or_zero(text, "Private_Clean:");
    let private_dirty: u64 = kib_or_zero(text, "Private_Dirty:");
    let shared_clean: u64 = kib_or_zero(text, "Shared_Clean:");
    let shared_dirty: u64 = kib_or_zero(text, "Shared_Dirty:");
    SmapsRollup {
        available: true,
        rss_kib: kib_or_zero(text, "Rss:"),
        pss_kib: kib_or_zero(text, "Pss:"),
        pss_anon_kib: kib_or_zero(text, "Pss_Anon:"),
        pss_file_kib: kib_or_zero(text, "Pss_File:"),
        pss_shmem_kib: kib_or_zero(text, "Pss_Shmem:"),
        anonymous_kib: kib_or_zero(text, "Anonymous:"),
        swap_kib: kib_or_zero(text, "Swap:"),
        swap_pss_kib: kib_or_zero(text, "SwapPss:"),
        private_kib: private_clean.saturating_add(private_dirty),
        shared_kib: shared_clean.saturating_add(shared_dirty),
    }
}

/// One kind of mapping, as told.
#[verifier::ext_equal]
pub struct MappingModel {
    pub category: Seq<char>,
    pub rss_kib: u64,
    pub pss_kib: u64,
    pub private_kib: u64,
    pub shared_kib: u64,
}

impl View for MappingMemory {
    type V = MappingModel;

    open spec fn view(&self) -> MappingModel {
        MappingModel {
            category: self.category@,
            rss_kib: self.rss_kib,
            pss_kib: self.pss_kib,
            private_kib: self.private_kib,
            shared_kib: self.shared_kib,
        }
    }
}

pub open spec fn mapping_views(mappings: Seq<MappingMemory>) -> Seq<MappingModel> {
    mappings.map_values(|m: MappingMemory| m@)
}

/// The private pages that are anonymous.
pub open spec fn anonymous_private(rollup: SmapsRollup) -> u64 {
    if rollup.anonymous_kib < rollup.private_kib {
        rollup.anonymous_kib
    } else {
        rollup.private_kib
    }
}

pub open spec fn file_mapping(process: ProcessMemory, rollup: SmapsRollup) -> MappingModel {
    MappingModel {
        category: "file-backed-mappings"@,
        rss_kib: process.file_kib,
        pss_kib: rollup.pss_file_kib,
        private_kib: less(rollup.private_kib, anonymous_private(rollup)),
        shared_kib: rollup.shared_kib,
    }
}

pub open spec fn anonymous_mapping(process: ProcessMemory, rollup: SmapsRollup) -> MappingModel {
    MappingModel {
        category: "anonymous-mappings"@,
        rss_kib: process.anonymous_kib,
        pss_kib: rollup.pss_anon_kib,
        private_kib: anonymous_private(rollup),
        shared_kib: 0,
    }
}

/// The mappings that are not empty: the larger first, and of two alike the
/// anonymous one.
pub open spec fn mappings_spec(process: ProcessMemory, rollup: SmapsRollup) -> Seq<MappingModel> {
    let has_file = process.file_kib != 0 || rollup.pss_file_kib != 0;
    let has_anonymous = process.anonymous_kib != 0 || rollup.pss_anon_kib != 0;
    let file = file_mapping(process, rollup);
    let anonymous = anonymous_mapping(process, rollup);
    if has_file && has_anonymous {
        if file.rss_kib > anonymous.rss_kib {
            seq![file, anonymous]
        } else {
            seq![anonymous, file]
        }
    } else if has_file {
        seq![file]
    } else if has_anonymous {
        seq![anonymous]
    } else {
        Seq::empty()
    }
}

pub fn mapping_memory_snapshot(process: &ProcessMemory, rollup: &SmapsRollup) -> (r:
    MappingMemorySnapshot)
    ensures
        r.available,
        mapping_views(r.categories@) == mappings_spec(*process, *rollup),
{
    let anonymous_private: u64 = if rollup.anonymous_kib < rollup.private_kib {
        rollup.anonymous_kib
    } else {
        rollup.private_kib
    };
    let has_file = process.file_kib != 0 || rollup.pss_file_kib != 0;
    let has_anonymous = process.anonymous_kib != 0 || rollup.pss_anon_kib != 0;
    let file = MappingMemory {
        category: copy_text("file-backed-mappings"),
        rss_kib: process.file_kib,
        pss_kib: rollup.pss_file_kib,
        private_kib: rollup.private_kib.saturating_sub(anonymous_private),
        shared_kib: rollup.shared_kib,
    };
    let anonymous = MappingMemory {
        category: copy_text("anonymous-mappings"),
        rss_kib: process.anonymous_kib,
        pss_kib: rollup.pss_anon_kib,
        private_kib: anonymous_private,
        shared_kib: 0,
    };
    let mut categories: Vec<MappingMemory> = Vec::new();
    if has_file && has_anonymous {
        if file.rss_kib > anonymous.rss_kib {
            categories.push(file);
            categories.push(anonymous);
        } else {
            categories.push(anonymous);
            categories.push(file);
        }
    } else if has_file {
        categories.push(file);
    } else if has_anonymous {
        categories.push(anonymous);
    }
    assert(mapping_views(categories@) =~= mappings_spec(*process, *rollup));
    MappingMemorySnapshot { available: true, categories }
}

/// Private pages are told once: those of the two kinds make up all of them.
pub proof fn law_private_pages_are_split(process: ProcessMemory, rollup: SmapsRollup)
    ensures
        file_mapping(process, rollup).private_kib + anonymous_mapping(process, rollup).private_kib
            == rollup.private_kib,
        mappings_spec(process, rollup).len() <= 2,
        mappings_spec(process, rollup).len() == 2 ==> mappings_spec(process, rollup)[0].rss_kib
            >= mappings_spec(process, rollup)[1].rss_kib,
{
}

/// What the files of a control group of the newer form held.
pub struct GroupFilesTwo {
    pub current: Option<String>,
    pub stat: Option<String>,
    pub peak: Option<String>,
    pub max: Option<String>,
    pub swap_current: Option<String>,
    pub swap_max: Option<String>,
}

/// What the files of a control group of the older form held.
pub struct GroupFilesOne {
    pub usage: Option<String>,
    pub stat: Option<String>,
    pub max_usage: Option<String>,
    pub limit: Option<String>,
    pub memsw_usage: Option<String>,
    pub memsw_limit: Option<String>,
}

pub open spec fn nat_of(value: Option<u64>) -> Option<nat> {
    match value {
        Some(value) => Some(value as nat),
        None => None,
    }
}

/// A limit counts where it is below the number that stands for none.
pub open spec fn real_limit(value: Option<nat>) -> Option<nat> {
    match value {
        Some(value) if value < 0x1000_0000_0000_0000 => Some(value),
        _ => None,
    }
}

fn limited(value: Option<u64>) -> (r: Option<u64>)
    ensures
        nat_of(r) == real_limit(nat_of(value)),
{
    match value {
        Some(value) => if value < 0x1000_0000_0000_0000 {
            Some(value)
        } else {
            None
        },
        None => None,
    }
}

fn zero_if_none(value: Option<u64>) -> (r: u64)
    ensures
        r == or_zero(nat_of(value)),
{
    match value {
        Some(value) => value,
        None => 0,
    }
}

pub fn collect_cgroup_v2(files: &GroupFilesTwo) -> (r: CgroupMemory)
    ensures
        r.available == (number_spec(text_view(files.current)) is Some || stat_spec(
            text_view(files.stat),
        ).len() > 0),
        r.version@ == "v2"@,
        r.current_bytes == or_zero(number_spec(text_view(files.current))),
        r.peak_bytes == or_zero(number_spec(text_view(files.peak))),
        nat_of(r.max_bytes) == limit_spec(text_view(files.max)),
        nat_of(r.swap_current_bytes) == number_spec(text_view(files.swap_current)),
        nat_of(r.swap_max_bytes) == limit_spec(text_view(files.swap_max)),
        r.anon_bytes == or_zero(value_of(stat_spec(text_view(files.stat)), "anon"@)),
        r.file_bytes == or_zero(value_of(stat_spec(text_view(files.stat)), "file"@)),
        r.shmem_bytes == or_zero(value_of(stat_spec(text_view(files.stat)), "shmem"@)),
        r.sock_bytes == or_zero(value_of(stat_spec(text_view(files.stat)), "sock"@)),
        r.kernel_stack_bytes == or_zero(value_of(stat_spec(text_view(files.stat)), "kernel_stack"@)),
        r.pagetables_bytes == or_zero(value_of(stat_spec(text_view(files.stat)), "pagetables"@)),
        r.percpu_bytes == or_zero(value_of(stat_spec(text_view(files.stat)), "percpu"@)),
        r.slab_reclaimable_bytes == or_zero(value_of(stat_spec(text_view(files.stat)), "slab_reclaimable"@)),
        r.slab_unreclaimable_bytes == or_zero(value_of(stat_spec(text_view(files.stat)), "slab_unreclaimable"@)),
        r.file_mapped_bytes == or_zero(value_of(stat_spec(text_view(files.stat)), "file_mapped"@)),
        r.file_dirty_bytes == or_zero(value_of(stat_spec(text_view(files.stat)), "file_dirty"@)),
{
    let current = number_text(&files.current);
    let stat = StatTable::parse(&files.stat);
    CgroupMemory {
        available: current.is_some() || !stat.is_empty(),
        version: copy_text("v2"),
        current_bytes: zero_if_none(current),
        peak_bytes: zero_if_none(number_text(&files.peak)),
        max_bytes: limit_text(&files.max),
        swap_current_bytes: number_text(&files.swap_current),
        swap_max_bytes: limit_text(&files.swap_max),
        anon_bytes: zero_if_none(stat.get("anon")),
        file_bytes: zero_if_none(stat.get("file")),
        shmem_bytes: zero_if_none(stat.get("shmem")),
        sock_bytes: zero_if_none(stat.get("sock")),
        kernel_stack_bytes: zero_if_none(stat.get("kernel_stack")),
        pagetables_bytes: zero_if_none(stat.get("pagetables")),
        percpu_bytes: zero_if_none(stat.get("percpu")),
        slab_reclaimable_bytes: zero_if_none(stat.get("slab_reclaimable")),
        slab_unreclaimable_bytes: zero_if_none(stat.get("slab_unreclaimable")),
        file_mapped_bytes: zero_if_none(stat.get("file_mapped")),
        file_dirty_bytes: zero_if_none(stat.get("file_dirty")),
    }
}

pub fn collect_cgroup_v1(files: &GroupFilesOne) -> (r: CgroupMemory)
    ensures
        r.available == (number_spec(text_view(files.usage)) is Some || stat_spec(
            text_view(files.stat),
        ).len() > 0),
        r.version@ == "v1"@,
        r.current_bytes == or_zero(number_spec(text_view(files.usage))),
        r.peak_bytes == or_zero(number_spec(text_view(files.max_usage))),
        nat_of(r.max_bytes) == real_limit(number_spec(text_view(files.limit))),
        nat_of(r.swap_current_bytes) == number_spec(text_view(files.memsw_usage)),
        nat_of(r.swap_max_bytes) == real_limit(number_spec(text_view(files.memsw_limit))),
        r.percpu_bytes == 0,
        r.file_dirty_bytes == 0,
        r.anon_bytes == StatTable::first_of(
            stat_spec(text_view(files.stat)),
            "rss"@,
            "total_rss"@,
        ),
        r.file_bytes == StatTable::first_of(
            stat_spec(text_view(files.stat)),
            "cache"@,
            "total_cache"@,
        ),
        r.shmem_bytes == StatTable::first_of(
            stat_spec(text_view(files.stat)),
            "shmem"@,
            "total_shmem"@,
        ),
        r.sock_bytes == StatTable::first_of(
            stat_spec(text_view(files.stat)),
            "sock"@,
            "total_sock"@,
        ),
        r.kernel_stack_bytes == StatTable::first_of(
            stat_spec(text_view(files.stat)),
            "kernel_stack"@,
            "total_kernel_stack"@,
        ),
        r.pagetables_bytes == StatTable::first_of(
            stat_spec(text_view(files.stat)),
            "pagetables"@,
            "total_pagetables"@,
        ),
        r.slab_reclaimable_bytes == StatTable::first_of(
            stat_spec(text_view(files.stat)),
            "slab_reclaimable"@,
            "total_slab_reclaimable"@,
        ),
        r.slab_unreclaimable_bytes == StatTable::first_of(
            stat_spec(text_view(files.stat)),
            "slab_unreclaimable"@,
            "total_slab_unreclaimable"@,
        ),
        r.file_mapped_bytes == StatTable::first_of(
            stat_spec(text_view(files.stat)),
            "mapped_file"@,
            "total_mapped_file"@,
        ),
{
    let current = number_text(&files.usage);
    let stat = StatTable::parse(&files.stat);
    CgroupMemory {
        available: current.is_some() || !stat.is_empty(),
        version: copy_text("v1"),
        current_bytes: zero_if_none(current),
        peak_bytes: zero_if_none(number_text(&files.max_usage)),
        max_bytes: limited(number_text(&files.limit)),
        swap_current_bytes: number_text(&files.memsw_usage),
        swap_max_bytes: limited(number_text(&files.memsw_limit)),
        percpu_bytes: 0,
        file_dirty_bytes: 0,
        anon_bytes: stat.stat_value("rss", "total_rss"),
        file_bytes: stat.stat_value("cache", "total_cache"),
        shmem_bytes: stat.stat_value("shmem", "total_shmem"),
        sock_bytes: stat.stat_value("sock", "total_sock"),
        kernel_stack_bytes: stat.stat_value("kernel_stack", "total_kernel_stack"),
        pagetables_bytes: stat.stat_value("pagetables", "total_pagetables"),
        slab_reclaimable_bytes: stat.stat_value("slab_reclaimable", "total_slab_reclaimable"),
        slab_unreclaimable_bytes: stat.stat_value("slab_unreclaimable", "total_slab_unreclaimable"),
        file_mapped_bytes: stat.stat_value("mapped_file", "total_mapped_file"),
    }
}

/// The memory that is left: what the host has, and what the limit of the control
/// group leaves.
pub open spec fn available_spec(
    meminfo: Option<Seq<char>>,
    limit: Option<u64>,
    current: u64,
) -> Option<nat> {
    let host = match meminfo {
        Some(text) => match kib_spec(text, "MemAvailable:"@) {
            Some(kib) => Some(
                if kib * 1024 > u64::MAX {
                    u64::MAX as nat
                } else {
                    kib * 1024
                },
            ),
            None => None,
        },
        None => None,
    };
    let group = match limit {
        Some(limit) => Some(less(limit, current) as nat),
        None => None,
    };
    match (host, group) {
        (Some(host), Some(group)) => Some(
            if host < group {
                host
            } else {
                group
            },
        ),
        (Some(host), None) => Some(host),
        (None, group) => group,
    }
}

pub fn available_memory_bytes(meminfo: &Option<String>, cgroup: &CgroupMemory) -> (r: Option<u64>)
    ensures
        nat_of(r) == available_spec(
            text_view(*meminfo),
            cgroup.max_bytes,
            cgroup.current_bytes,
        ),
{
    let host: Option<u64> = match meminfo {
        Some(text) => match proc_kib(text.as_str(), "MemAvailable:") {
            Some(kib) => Some(multiply(kib, 1024)),
            None => None,
        },
        None => None,
    };
    let group: Option<u64> = match cgroup.max_bytes {
        Some(limit) => Some(limit.saturating_sub(cgroup.current_bytes)),
        None => None,
    };
    match (host, group) {
        (Some(host), Some(group)) => if host < group {
            Some(host)
        } else {
            Some(group)
        },
        (Some(host), None) => Some(host),
        (None, group) => group,
    }
}

/// The tables of sockets that the system keeps.
pub struct SocketTables {
    pub udp: Option<String>,
    pub udp6: Option<String>,
    pub tcp: Option<String>,
    pub tcp6: Option<String>,
}

pub open spec fn optional_table(table: Option<Seq<char>>, inodes: Set<u64>) -> (nat, nat, nat) {
    match table {
        Some(table) => table_spec(table, inodes),
        None => (0, 0, 0),
    }
}

fn read_table(table: &Option<String>, inodes: &BTreeSet<u64>) -> (r: (u64, u64, u64))
    ensures
        (r.0 as nat, r.1 as nat, r.2 as nat) == optional_table(text_view(*table), inodes@),
{
    match table {
        Some(table) => parse_socket_table(table.as_str(), inodes),
        None => (0, 0, 0),
    }
}

/// What waits in the sockets whose inodes are given.
pub fn collect_socket_memory(socket_fds: u64, inodes: &BTreeSet<u64>, tables: &SocketTables) -> (r:
    SocketMemory)
    ensures
        ({
            let udp = optional_table(text_view(tables.udp), inodes@);
            let udp6 = optional_table(text_view(tables.udp6), inodes@);
            let tcp = optional_table(text_view(tables.tcp), inodes@);
            let tcp6 = optional_table(text_view(tables.tcp6), inodes@);
            r == SocketMemory {
                available: tables.udp is Some || tables.udp6 is Some || tables.tcp is Some
                    || tables.tcp6 is Some,
                socket_fds,
                udp_sockets: more(udp.0 as u64, udp6.0 as u64),
                udp_tx_queue_bytes: more(udp.1 as u64, udp6.1 as u64),
                udp_rx_queue_bytes: more(udp.2 as u64, udp6.2 as u64),
                tcp_sockets: more(tcp.0 as u64, tcp6.0 as u64),
                tcp_tx_queue_bytes: more(tcp.1 as u64, tcp6.1 as u64),
                tcp_rx_queue_bytes: more(tcp.2 as u64, tcp6.2 as u64),
            }
        }),
{
    let udp = read_table(&tables.udp, inodes);
    let udp6 = read_table(&tables.udp6, inodes);
    let tcp = read_table(&tables.tcp, inodes);
    let tcp6 = read_table(&tables.tcp6, inodes);
    SocketMemory {
        available: tables.udp.is_some() || tables.udp6.is_some() || tables.tcp.is_some()
            || tables.tcp6.is_some(),
        socket_fds,
        udp_sockets: udp.0.saturating_add(udp6.0),
        udp_tx_queue_bytes: udp.1.saturating_add(udp6.1),
        udp_rx_queue_bytes: udp.2.saturating_add(udp6.2),
        tcp_sockets: tcp.0.saturating_add(tcp6.0),
        tcp_tx_queue_bytes: tcp.1.saturating_add(tcp6.1),
        tcp_rx_queue_bytes: tcp.2.saturating_add(tcp6.2),
    }
}

/// The product of two counts, as far as it can be counted.
pub open spec fn times(a: u64, b: u64) -> u64 {
    if a * b > u64::MAX {
        u64::MAX
    } else {
        (a * b) as u64
    }
}

pub fn multiply(a: u64, b: u64) -> (r: u64)
    ensures
        r == times(a, b),
{
    assert(0 <= a * b <= 0xffff_ffff_ffff_ffff * 0xffff_ffff_ffff_ffff) by (nonlinear_arith)
        requires
            0 <= a <= 0xffff_ffff_ffff_ffff,
            0 <= b <= 0xffff_ffff_ffff_ffff,
    ;
    let product: u128 = a as u128 * b as u128;
    if product > u64::MAX as u128 {
        u64::MAX
    } else {
        product as u64
    }
}

/// The slots of a queue that are in use.
pub open spec fn in_use(slots: u64, free: u64) -> u64 {
    less(slots, free)
}

/// What is told of the buffers for packets.
pub open spec fn buffers_spec(io: IoCounters, r: FixedBufferMemory) -> bool {
    &&& r.packet_capacity_bytes == PACKET_CAPACITY
    &&& r.packet_pool_capacity_slots == io.packet_pool_capacity
    &&& r.packet_pool_allocated_slots == io.packet_pool_allocated
    &&& r.packet_pool_retained_slots == io.packet_pool_retained
    &&& r.packet_pool_allocated_payload_bytes == times(
            io.packet_pool_allocated,
            PACKET_CAPACITY as u64,
        )
    &&& r.udp_tx_slots == UDP_TX_SLOTS
    &&& r.udp_tx_payload_bytes == UDP_TX_SLOTS * PACKET_CAPACITY
    &&& r.udp_tx_in_use_slots == in_use(UDP_TX_SLOTS as u64, io.free_udp_tx_slots)
    &&& r.tun_tx_slots == TUN_TX_SLOTS
    &&& r.tun_tx_payload_bytes == TUN_TX_SLOTS * PACKET_CAPACITY
    &&& r.tun_tx_in_use_slots == in_use(TUN_TX_SLOTS as u64, io.free_tun_tx_slots)
    &&& r.udp_rx_mode@ == match io.udp_datagram_mode {
            UdpDatagramMode::Batch => "recvmmsg/sendmmsg"@,
            UdpDatagramMode::Compat => "recvmsg/sendmsg"@,
        }
    &&& r.udp_rx_slots == MAX_DATAGRAMS
    &&& r.udp_rx_slot_bytes == PACKET_CAPACITY
    &&& r.udp_rx_payload_bytes == MAX_DATAGRAMS * PACKET_CAPACITY
    &&& r.tun_rx_payload_bytes == PACKET_CAPACITY
    &&& r.fixed_payload_bytes == more(
            more(r.packet_pool_allocated_payload_bytes, r.udp_rx_payload_bytes),
            PACKET_CAPACITY as u64,
        )
    &&& r.udp_socket_rcvbuf_request_bytes == UDP_RECV_BUFFER_BYTES
    &&& r.udp_socket_sndbuf_request_bytes == UDP_SEND_BUFFER_BYTES
}

/// What the buffers for packets take up.
pub fn fixed_buffer_memory(io: &IoCounters) -> (r: FixedBufferMemory)
    ensures
        buffers_spec(*io, r),
{
    let packet_capacity: u64 = PACKET_CAPACITY as u64;
    let udp_tx_slots: u64 = UDP_TX_SLOTS as u64;
    let tun_tx_slots: u64 = TUN_TX_SLOTS as u64;
    let udp_rx_slots: u64 = MAX_DATAGRAMS as u64;
    let allocated: u64 = multiply(io.packet_pool_allocated, packet_capacity);
    let udp_rx_payload_bytes: u64 = udp_rx_slots * packet_capacity;
    FixedBufferMemory {
        packet_capacity_bytes: packet_capacity,
        packet_pool_capacity_slots: io.packet_pool_capacity,
        packet_pool_allocated_slots: io.packet_pool_allocated,
        packet_pool_retained_slots: io.packet_pool_retained,
        packet_pool_allocated_payload_bytes: allocated,
        udp_tx_slots,
        udp_tx_payload_bytes: udp_tx_slots * packet_capacity,
        udp_tx_in_use_slots: udp_tx_slots.saturating_sub(io.free_udp_tx_slots),
        tun_tx_slots,
        tun_tx_payload_bytes: tun_tx_slots * packet_capacity,
        tun_tx_in_use_slots: tun_tx_slots.saturating_sub(io.free_tun_tx_slots),
        udp_rx_mode: copy_text(io.udp_datagram_mode.label()),
        udp_rx_slots,
        udp_rx_slot_bytes: packet_capacity,
        udp_rx_payload_bytes,
        tun_rx_payload_bytes: packet_capacity,
        fixed_payload_bytes: allocated.saturating_add(udp_rx_payload_bytes).saturating_add(
            packet_capacity,
        ),
        udp_socket_rcvbuf_request_bytes: UDP_RECV_BUFFER_BYTES as u64,
        udp_socket_sndbuf_request_bytes: UDP_SEND_BUFFER_BYTES as u64,
    }
}

/// What the local proxy has open and allocated.
#[derive(Clone, Copy, Debug, PartialEq, Eq, Structural)]
pub struct ProxyStats {
    pub tcp_active: u64,
    pub udp_active: u64,
    pub tcp_limit: u64,
    pub udp_limit: u64,
    pub tcp_buffer_allocated: u64,
    pub tcp_buffer_retained: u64,
    pub udp_normal_buffer_allocated: u64,
    pub udp_normal_buffer_retained: u64,
    pub udp_jumbo_buffer_allocated: u64,
    pub udp_jumbo_buffer_retained: u64,
    pub opening_buffer_allocated_bytes: u64,
}

/// What the buffers of the local proxy take up each.
#[derive(Clone, Copy, Debug, PartialEq, Eq, Structural)]
pub struct ProxyBudget {
    pub tcp_relay_bytes_per_session: u64,
    pub udp_normal_buffer_bytes: u64,
    pub udp_jumbo_buffer_bytes: u64,
    pub udp_response_bytes_at_limit: u64,
}

impl ProxyBudget {
    /// The bytes in so many buffers of each kind. A session relays through two
    /// buffers.
    pub open spec fn payload_spec(self, tcp: u64, normal: u64, jumbo: u64) -> u64 {
        more(
            more(
                times(tcp, self.tcp_relay_bytes_per_session / 2),
                times(normal, self.udp_normal_buffer_bytes),
            ),
            times(jumbo, self.udp_jumbo_buffer_bytes),
        )
    }

    pub fn payload(self, tcp: u64, normal: u64, jumbo: u64) -> (r: u64)
        ensures
            r == self.payload_spec(tcp, normal, jumbo),
    {
        multiply(tcp, self.tcp_relay_bytes_per_session / 2).saturating_add(
            multiply(normal, self.udp_normal_buffer_bytes),
        ).saturating_add(multiply(jumbo, self.udp_jumbo_buffer_bytes))
    }

    pub open spec fn bound_spec(self, tcp_limit: u64) -> u64 {
        more(
            times(tcp_limit, self.tcp_relay_bytes_per_session),
            self.udp_response_bytes_at_limit,
        )
    }

    /// The most that the buffers can take up.
    pub fn upper_bound(self, tcp_limit: u64) -> (r: u64)
        ensures
            r == self.bound_spec(tcp_limit),
    {
        multiply(tcp_limit, self.tcp_relay_bytes_per_session).saturating_add(
            self.udp_response_bytes_at_limit,
        )
    }
}

/// The sum of lengths, as far as it can be counted.
pub open spec fn total_spec(lengths: Seq<u64>) -> u64
    decreases lengths.len(),
{
    if lengths.len() == 0 {
        0
    } else {
        more(total_spec(lengths.drop_last()), lengths.last())
    }
}

pub fn total(lengths: &Vec<u64>) -> (r: u64)
    ensures
        r == total_spec(lengths@),
{
    let mut sum: u64 = 0;
    let mut i: usize = 0;
    while i < lengths.len()
        invariant
            i <= lengths@.len(),
            sum == total_spec(lengths@.take(i as int)),
        decreases lengths@.len() - i,
    {
        assert(lengths@.take(i + 1).drop_last() =~= lengths@.take(i as int));
        sum = sum.saturating_add(lengths[i]);
        i = i + 1;
    }
    assert(lengths@.take(i as int) =~= lengths@);
    sum
}

/// What the parts of the server tell of themselves. Of texts that are kept, the
/// bytes that each takes up.
pub struct RuntimeGauges {
    pub allocator: String,
    pub log_line_capacities: Vec<u64>,
    pub log_ring_metadata_capacity_bytes: u64,
    pub log_entry_limit: u64,
    pub public_sessions: u64,
    pub public_session_capacity: u64,
    pub hot_sessions: u64,
    pub hot_session_capacity: u64,
    pub hot_session_limit: u64,
    pub max_stream_workers_per_device: u64,
    pub engine_epochs: u64,
    pub device_epochs: u64,
    pub device_epoch_capacity: u64,
    pub derived_key_capacities: Vec<u64>,
    pub web_session_key_capacities: Vec<u64>,
    pub web_session_limit: u64,
    pub login_limit_key_capacities: Vec<u64>,
    pub login_limit_limit: u64,
    pub dpi_entries: u64,
    pub dpi_entry_capacity: u64,
    pub dpi_retained_bytes: u64,
    pub stream_repairs: u64,
    pub stream_inventory: u64,
    pub dataplane_commands_queued: u64,
    pub dataplane_command_capacity: u64,
    pub local_proxy_active: bool,
    pub memory_trim_count: u64,
    pub memory_trim_last_unix: u64,
}

/// What the server itself holds.
pub fn collect_runtime_memory(
    gauges: &RuntimeGauges,
    proxy: &ProxyStats,
    budget: &ProxyBudget,
) -> (r: RuntimeMemory)
    ensures
        r.allocator@ == gauges.allocator@,
        r.public_sessions == gauges.public_sessions,
        r.public_session_capacity == gauges.public_session_capacity,
        r.hot_sessions == gauges.hot_sessions,
        r.hot_session_capacity == gauges.hot_session_capacity,
        r.hot_session_limit == gauges.hot_session_limit,
        r.max_stream_workers_per_device == gauges.max_stream_workers_per_device,
        r.engine_epochs == gauges.engine_epochs,
        r.device_epochs == gauges.device_epochs,
        r.device_epoch_capacity == gauges.device_epoch_capacity,
        r.web_session_limit == gauges.web_session_limit,
        r.login_limit_limit == gauges.login_limit_limit,
        r.log_entry_limit == gauges.log_entry_limit,
        r.log_ring_metadata_capacity_bytes == gauges.log_ring_metadata_capacity_bytes,
        r.dpi_entries == gauges.dpi_entries,
        r.dpi_entry_capacity == gauges.dpi_entry_capacity,
        r.dpi_retained_bytes == gauges.dpi_retained_bytes,
        r.stream_repairs == gauges.stream_repairs,
        r.stream_inventory == gauges.stream_inventory,
        r.dataplane_commands_queued == gauges.dataplane_commands_queued,
        r.dataplane_command_capacity == gauges.dataplane_command_capacity,
        r.local_proxy_active == gauges.local_proxy_active,
        r.memory_trim_count == gauges.memory_trim_count,
        r.memory_trim_last_unix == gauges.memory_trim_last_unix,
        r.derived_keys == gauges.derived_key_capacities@.len(),
        r.derived_key_string_capacity_bytes == total_spec(gauges.derived_key_capacities@),
        r.web_sessions == gauges.web_session_key_capacities@.len(),
        r.web_session_key_capacity_bytes == total_spec(gauges.web_session_key_capacities@),
        r.login_limits == gauges.login_limit_key_capacities@.len(),
        r.login_limit_key_capacity_bytes == total_spec(gauges.login_limit_key_capacities@),
        r.log_entries == gauges.log_line_capacities@.len(),
        r.log_string_capacity_bytes == total_spec(gauges.log_line_capacities@),
        r.local_proxy_tcp_sessions == proxy.tcp_active,
        r.local_proxy_udp_flows == proxy.udp_active,
        r.local_proxy_tcp_limit == proxy.tcp_limit,
        r.local_proxy_udp_limit == proxy.udp_limit,
        r.local_proxy_opening_buffer_allocated_bytes == proxy.opening_buffer_allocated_bytes,
        r.local_proxy_payload_allocated_bytes == budget.payload_spec(
            proxy.tcp_buffer_allocated,
            proxy.udp_normal_buffer_allocated,
            proxy.udp_jumbo_buffer_allocated,
        ),
        r.local_proxy_payload_retained_bytes == budget.payload_spec(
            proxy.tcp_buffer_retained,
            proxy.udp_normal_buffer_retained,
            proxy.udp_jumbo_buffer_retained,
        ),
        r.local_proxy_payload_upper_bound_at_limit_bytes == budget.bound_spec(proxy.tcp_limit),
{
    RuntimeMemory {
        allocator: copy_text(gauges.allocator.as_str()),
        public_sessions: gauges.public_sessions,
        public_session_capacity: gauges.public_session_capacity,
        hot_sessions: gauges.hot_sessions,
        hot_session_capacity: gauges.hot_session_capacity,
        hot_session_limit: gauges.hot_session_limit,
        max_stream_workers_per_device: gauges.max_stream_workers_per_device,
        engine_epochs: gauges.engine_epochs,
        device_epochs: gauges.device_epochs,
        device_epoch_capacity: gauges.device_epoch_capacity,
        web_session_limit: gauges.web_session_limit,
        login_limit_limit: gauges.login_limit_limit,
        log_entry_limit: gauges.log_entry_limit,
        log_ring_metadata_capacity_bytes: gauges.log_ring_metadata_capacity_bytes,
        dpi_entries: gauges.dpi_entries,
        dpi_entry_capacity: gauges.dpi_entry_capacity,
        dpi_retained_bytes: gauges.dpi_retained_bytes,
        stream_repairs: gauges.stream_repairs,
        stream_inventory: gauges.stream_inventory,
        dataplane_commands_queued: gauges.dataplane_commands_queued,
        dataplane_command_capacity: gauges.dataplane_command_capacity,
        local_proxy_active: gauges.local_proxy_active,
        memory_trim_count: gauges.memory_trim_count,
        memory_trim_last_unix: gauges.memory_trim_last_unix,
        derived_keys: gauges.derived_key_capacities.len() as u64,
        derived_key_string_capacity_bytes: total(&gauges.derived_key_capacities),
        web_sessions: gauges.web_session_key_capacities.len() as u64,
        web_session_key_capacity_bytes: total(&gauges.web_session_key_capacities),
        login_limits: gauges.login_limit_key_capacities.len() as u64,
        login_limit_key_capacity_bytes: total(&gauges.login_limit_key_capacities),
        log_entries: gauges.log_line_capacities.len() as u64,
        log_string_capacity_bytes: total(&gauges.log_line_capacities),
        local_proxy_tcp_sessions: proxy.tcp_active,
        local_proxy_udp_flows: proxy.udp_active,
        local_proxy_tcp_limit: proxy.tcp_limit,
        local_proxy_udp_limit: proxy.udp_limit,
        local_proxy_opening_buffer_allocated_bytes: proxy.opening_buffer_allocated_bytes,
        local_proxy_payload_allocated_bytes: budget.payload(
            proxy.tcp_buffer_allocated,
            proxy.udp_normal_buffer_allocated,
            proxy.udp_jumbo_buffer_allocated,
        ),
        local_proxy_payload_retained_bytes: budget.payload(
            proxy.tcp_buffer_retained,
            proxy.udp_normal_buffer_retained,
            proxy.udp_jumbo_buffer_retained,
        ),
        local_proxy_payload_upper_bound_at_limit_bytes: budget.upper_bound(proxy.tcp_limit),
    }
}

/// The figures of one moment.
pub fn collect_metric_frame(
    timestamp_ms: u64,
    pid: u32,
    process: ProcessMemory,
    smaps_rollup: SmapsRollup,
    cgroup: CgroupMemory,
    sockets: SocketMemory,
    storage: PersistentStorage,
    io: &IoCounters,
    runtime: RuntimeMemory,
) -> (r: MetricFrame)
    ensures
        r.timestamp_ms == timestamp_ms,
        r.pid == pid,
        r.error@.len() == 0,
        r.process == process,
        r.smaps_rollup == smaps_rollup,
        r.mappings.available,
        mapping_views(r.mappings.categories@) == mappings_spec(process, smaps_rollup),
        r.cgroup == cgroup,
        r.sockets == sockets,
        buffers_spec(*io, r.fixed_buffers),
        r.storage == storage,
        r.runtime == runtime,
{
    MetricFrame {
        timestamp_ms,
        pid,
        error: String::new(),
        process,
        smaps_rollup,
        mappings: mapping_memory_snapshot(&process, &smaps_rollup),
        cgroup,
        sockets,
        fixed_buffers: fixed_buffer_memory(io),
        storage,
        runtime,
    }
}

} // verus!
