pub mod gossip;
