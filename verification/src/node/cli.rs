//! The node's command line, as the values it was given. Reading the
//! arguments is the caller's; this type holds what they said.
use vstd::prelude::*;
use crate::node::config::{chain_defaults, NodeConfig};

verus! {

/// The command-line options of the node.
#[derive(Debug, Clone)]
pub struct Cli {
    pub network: String,
    pub port: u16,
    pub rpc_port: u16,
    pub rest_port: u16,
    pub data_dir: String,
    pub max_peers: u32,
    pub enable_mining: bool,
    pub log_level: String,
}

impl Cli {
    /// The configuration these options give: the options themselves and
    /// the chain defaults.
    pub fn to_config(&self) -> (r: NodeConfig)
        ensures
            r.network@ == self.network@,
            r.port == self.port,
            r.rpc_port == self.rpc_port,
            r.rest_port == self.rest_port,
            r.data_dir@ == self.data_dir@,
            r.max_peers == self.max_peers,
            r.enable_mining == self.enable_mining,
            r.log_level@ == self.log_level@,
            chain_defaults(r),
    {
        NodeConfig {
            network: self.network.clone(),
            port: self.port,
            rpc_port: self.rpc_port,
            rest_port: self.rest_port,
            data_dir: self.data_dir.clone(),
            max_peers: self.max_peers,
            enable_mining: self.enable_mining,
            log_level: self.log_level.clone(),
            chain_id: 0x539,
            gas_price_wei: 1_000_000_000,
            dev_apply_on_send: true,
            asset_name: String::from_str("Erbium"),
            asset_symbol: String::from_str("ERB"),
            asset_decimals: 8,
        }
    }
}

} // verus!
