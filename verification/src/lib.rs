//! Capeit: the shared protocol, the daemon's decision logic and the text
//! processing of a Linux CPU/GPU power and thermal manager.

pub mod text;
pub mod number;
pub mod named_map;
pub mod profile;
pub mod config;
pub mod daemon;
pub mod laws;
pub mod hardware;
pub mod inxi;
pub mod order;
pub mod client;
