//! Low-latency node-to-node links.
pub mod rdma;
