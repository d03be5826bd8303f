//! The node's configuration.
use vstd::prelude::*;

verus! {

/// Node configuration
#[derive(Debug, Clone)]
pub struct NodeConfig {
    pub network: String,
    pub port: u16,
    pub rpc_port: u16,
    pub rest_port: u16,
    pub data_dir: String,
    pub max_peers: u32,
    pub enable_mining: bool,
    pub log_level: String,
    pub chain_id: u64,
    pub gas_price_wei: u64,
    pub dev_apply_on_send: bool,
    pub asset_name: String,
    pub asset_symbol: String,
    pub asset_decimals: u8,
}

/// The settings every configuration starts from that the command line
/// does not set: chain 1337, a gas price of one gwei, transactions applied
/// on send, and the asset Erbium (ERB) with 8 decimals.
pub open spec fn chain_defaults(c: NodeConfig) -> bool {
    &&& c.chain_id == 0x539
    &&& c.gas_price_wei == 1_000_000_000
    &&& c.dev_apply_on_send
    &&& c.asset_name@ == "Erbium"@
    &&& c.asset_symbol@ == "ERB"@
    &&& c.asset_decimals == 8
}

impl Default for NodeConfig {
    /// Mainnet on port 3030, RPC on 8545, REST on 8080, data in `./data`,
    /// up to 50 peers, no mining, `info` logging, and the chain defaults.
    fn default() -> (r: NodeConfig)
        ensures
            r.network@ == "mainnet"@,
            r.port == 3030,
            r.rpc_port == 8545,
            r.rest_port == 8080,
            r.data_dir@ == "./data"@,
            r.max_peers == 50,
            !r.enable_mining,
            r.log_level@ == "info"@,
            chain_defaults(r),
    {
        NodeConfig {
            network: String::from_str("mainnet"),
            port: 3030,
            rpc_port: 8545,
            rest_port: 8080,
            data_dir: String::from_str("./data"),
            max_peers: 50,
            enable_mining: false,
            log_level: String::from_str("info"),
            chain_id: 0x539,
            gas_price_wei: 1_000_000_000,
            dev_apply_on_send: true,
            asset_name: String::from_str("Erbium"),
            asset_symbol: String::from_str("ERB"),
            asset_decimals: 8,
        }
    }
}

} // verus!
