//! What the client and the server have in common.

pub mod buffers;
pub mod flow_frame;
pub mod internet;
pub mod selective_fec;
pub mod striped_scheduler;
