//! The server: packets from many clients to one tunnel and back.

pub mod dataplane;
pub mod dataplane_laws;
pub mod downlink_queue;
pub mod dpi;
pub mod host_cpu;
pub mod io_counters;
pub mod io_laws;
pub mod log_ring;
pub mod memory_laws;
pub mod memory_metrics;
pub mod monitor_laws;
pub mod packet;
pub mod packet_sink;
pub mod perf;
pub mod pktinfo;
pub mod proc_laws;
pub mod proc_text;
pub mod proxy_monitor;
pub mod queue_laws;
pub mod report_laws;
pub mod router;
pub mod settings;
pub mod settings_laws;
pub mod sockaddr;
pub mod stats_line;
pub mod syscalls_monitor;
pub mod tokio_io;
pub mod traffic_laws;
pub mod tx_queue;
pub mod udp_supervisor;
