pub mod swim;
pub mod gossip;
pub mod nat_traversal;
