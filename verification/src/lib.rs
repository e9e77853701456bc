//! Transport core of the CSQTT tunnel: the rules, codecs and state machines of
//! its client and its server, with their contracts.

pub mod client;
pub mod net;
pub mod server;
pub mod shared;
pub mod text;
pub mod wire;
