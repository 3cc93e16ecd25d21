//! A small peer-to-peer membership node: configuration, address discovery,
//! the SWIM join protocol with gossip fan-out, and a STUN request encoder.

pub mod config;
pub mod net;
pub mod protocols;
pub mod notes;
