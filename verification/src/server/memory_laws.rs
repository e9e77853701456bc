//! Which figure of the system's texts stands for which figure of the report.

use std::collections::BTreeSet;
use vstd::prelude::*;
use crate::server::io_counters::IoCounters;
use crate::server::memory_metrics::{
    buffers_spec, collect_cgroup_v1, collect_cgroup_v2, collect_socket_memory, optional_table,
    CgroupMemory, FixedBufferMemory, GroupFilesOne, GroupFilesTwo, SocketMemory, SocketTables,
};
use crate::server::proc_text::{limit_spec, number_spec, stat_spec, text_view, value_of};

verus! {

/// A figure of the newer control group: the file that holds it, or the line of the
/// table with its name.
pub proof fn law_newer_group_is_told(files: &GroupFilesTwo, r: CgroupMemory, n: u64)
    requires
        call_ensures(collect_cgroup_v2, (files,), r),
    ensures
        number_spec(text_view(files.current)) == Some(n as nat) ==> r.current_bytes == n
            && r.available,
        number_spec(text_view(files.peak)) == Some(n as nat) ==> r.peak_bytes == n,
        limit_spec(text_view(files.max)) == Some(n as nat) ==> r.max_bytes == Some(n),
        limit_spec(text_view(files.max)) is None ==> r.max_bytes is None,
        number_spec(text_view(files.swap_current)) == Some(n as nat) ==> r.swap_current_bytes
            == Some(n),
        limit_spec(text_view(files.swap_max)) == Some(n as nat) ==> r.swap_max_bytes == Some(n),
        ({
            let table = stat_spec(text_view(files.stat));
            &&& value_of(table, "anon"@) == Some(n as nat) ==> r.anon_bytes == n
            &&& value_of(table, "file"@) == Some(n as nat) ==> r.file_bytes == n
            &&& value_of(table, "shmem"@) == Some(n as nat) ==> r.shmem_bytes == n
            &&& value_of(table, "sock"@) == Some(n as nat) ==> r.sock_bytes == n
            &&& value_of(table, "kernel_stack"@) == Some(n as nat) ==> r.kernel_stack_bytes == n
            &&& value_of(table, "pagetables"@) == Some(n as nat) ==> r.pagetables_bytes == n
            &&& value_of(table, "percpu"@) == Some(n as nat) ==> r.percpu_bytes == n
            &&& value_of(table, "slab_reclaimable"@) == Some(n as nat)
                ==> r.slab_reclaimable_bytes == n
            &&& value_of(table, "slab_unreclaimable"@) == Some(n as nat)
                ==> r.slab_unreclaimable_bytes == n
            &&& value_of(table, "file_mapped"@) == Some(n as nat) ==> r.file_mapped_bytes == n
            &&& value_of(table, "file_dirty"@) == Some(n as nat) ==> r.file_dirty_bytes == n
            &&& table.len() == 0 && number_spec(text_view(files.current)) is None
                ==> !r.available
        }),
        r.version@ == "v2"@,
{
}

/// A figure of the older control group goes by its own name first; a limit that
/// stands for none is none.
pub proof fn law_older_group_is_told(files: &GroupFilesOne, r: CgroupMemory, n: u64)
    requires
        call_ensures(collect_cgroup_v1, (files,), r),
    ensures
        number_spec(text_view(files.usage)) == Some(n as nat) ==> r.current_bytes == n
            && r.available,
        number_spec(text_view(files.max_usage)) == Some(n as nat) ==> r.peak_bytes == n,
        number_spec(text_view(files.limit)) == Some(n as nat) && n < 0x1000_0000_0000_0000
            ==> r.max_bytes == Some(n),
        number_spec(text_view(files.limit)) == Some(n as nat) && n >= 0x1000_0000_0000_0000
            ==> r.max_bytes is None,
        number_spec(text_view(files.memsw_usage)) == Some(n as nat) ==> r.swap_current_bytes
            == Some(n),
        ({
            let table = stat_spec(text_view(files.stat));
            &&& value_of(table, "rss"@) == Some(n as nat) ==> r.anon_bytes == n
            &&& value_of(table, "rss"@) is None && value_of(table, "total_rss"@) == Some(n as nat)
                ==> r.anon_bytes == n
            &&& value_of(table, "cache"@) == Some(n as nat) ==> r.file_bytes == n
            &&& value_of(table, "cache"@) is None && value_of(table, "total_cache"@) == Some(
                n as nat,
            ) ==> r.file_bytes == n
            &&& value_of(table, "shmem"@) == Some(n as nat) ==> r.shmem_bytes == n
            &&& value_of(table, "mapped_file"@) == Some(n as nat) ==> r.file_mapped_bytes == n
        }),
        r.version@ == "v1"@,
        r.percpu_bytes == 0,
{
}

/// The sockets of both kinds of addresses are told together, datagrams and streams
/// apart.
pub proof fn law_sockets_are_told_together(
    fds: u64,
    inodes: &BTreeSet<u64>,
    tables: &SocketTables,
    r: SocketMemory,
)
    requires
        call_ensures(collect_socket_memory, (fds, inodes, tables), r),
        ({
            let udp = optional_table(text_view(tables.udp), inodes@);
            let udp6 = optional_table(text_view(tables.udp6), inodes@);
            let tcp = optional_table(text_view(tables.tcp), inodes@);
            let tcp6 = optional_table(text_view(tables.tcp6), inodes@);
            &&& udp.0 + udp6.0 <= u64::MAX && udp.1 + udp6.1 <= u64::MAX && udp.2 + udp6.2
                <= u64::MAX
            &&& tcp.0 + tcp6.0 <= u64::MAX && tcp.1 + tcp6.1 <= u64::MAX && tcp.2 + tcp6.2
                <= u64::MAX
        }),
    ensures
        ({
            let udp = optional_table(text_view(tables.udp), inodes@);
            let udp6 = optional_table(text_view(tables.udp6), inodes@);
            let tcp = optional_table(text_view(tables.tcp), inodes@);
            let tcp6 = optional_table(text_view(tables.tcp6), inodes@);
            &&& r.udp_sockets == udp.0 + udp6.0
            &&& r.udp_tx_queue_bytes == udp.1 + udp6.1
            &&& r.udp_rx_queue_bytes == udp.2 + udp6.2
            &&& r.tcp_sockets == tcp.0 + tcp6.0
            &&& r.tcp_tx_queue_bytes == tcp.1 + tcp6.1
            &&& r.tcp_rx_queue_bytes == tcp.2 + tcp6.2
        }),
        r.socket_fds == fds,
        r.available <==> tables.udp is Some || tables.udp6 is Some || tables.tcp is Some
            || tables.tcp6 is Some,
{
}

/// The buffers take up sixteen hundred bytes each, as many as were made; slots in
/// use are those that are not free.
pub proof fn law_buffers_are_told_in_bytes(io: IoCounters, r: FixedBufferMemory)
    requires
        buffers_spec(io, r),
        io.packet_pool_allocated <= 0xffff_ffff,
        io.free_udp_tx_slots <= 4_096,
        io.free_tun_tx_slots <= 1_024,
    ensures
        r.packet_pool_allocated_payload_bytes == 1_600 * io.packet_pool_allocated,
        r.udp_tx_in_use_slots + io.free_udp_tx_slots == 4_096,
        r.tun_tx_in_use_slots + io.free_tun_tx_slots == 1_024,
        r.udp_rx_payload_bytes == 128 * 1_600,
        r.fixed_payload_bytes == 1_600 * io.packet_pool_allocated + 128 * 1_600 + 1_600,
        r.packet_pool_retained_slots == io.packet_pool_retained,
        r.packet_pool_capacity_slots == io.packet_pool_capacity,
        io.udp_datagram_mode is Batch ==> r.udp_rx_mode@ == "recvmmsg/sendmmsg"@,
        io.udp_datagram_mode is Compat ==> r.udp_rx_mode@ == "recvmsg/sendmsg"@,
{
}

} // verus!
