pub mod stun;
pub mod membership;
pub mod chord;
pub mod dht;
