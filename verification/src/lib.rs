//! Semantic world engine: an append-only fact store of simulated hosts, the
//! rules that decide which host an Ethernet frame is addressed to, and the
//! in-memory wire that carries frames to and from each host.

pub mod ip;
pub mod text;
pub mod facts;
pub mod world;
pub mod materialize;
pub mod wire;
pub mod guest;
pub mod device;
pub mod engine;
pub mod laws;
