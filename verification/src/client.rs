//! The client: many relayed sessions that carry one tunnel.

pub mod auth;
pub mod auth_flow;
pub mod auth_laws;
pub mod auth_requests;
pub mod auth_words;
pub mod cause;
pub mod credentials;
pub mod pacing;
pub mod dns;
pub mod dns_laws;
pub mod events;
pub mod flow_laws;
pub mod json;
pub mod packet;
pub mod replay;
pub mod session;
pub mod session_flow;
pub mod session_laws;
pub mod shutdown;
pub mod start_laws;
pub mod stats;
pub mod stun;
pub mod stun_build;
pub mod turn_core;
pub mod turn_endings;
pub mod turn_endpoint;
pub mod turn_laws;
pub mod turn_model;
pub mod turn_requests;
pub mod turn_upkeep;
pub mod worker;
pub mod worker_flow;
pub mod worker_laws;
