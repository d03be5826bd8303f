//! Peer-to-peer networking logic.
pub mod address;
pub mod dht;
pub mod discovery;
pub mod firewall;
pub mod opportunistic;
pub mod p2p_network;
pub mod protocol;
pub mod security;
pub mod sync;
pub mod transport;
