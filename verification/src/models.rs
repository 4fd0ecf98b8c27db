//! Rows of the database and the configuration of a network.

use vstd::prelude::*;

verus! {

/// Row from the `network` table.
#[derive(Debug)]
pub struct NetworkRow {
    pub network_name: String,
    pub chain_name: String,
}

/// Row from the `config` table.
#[derive(Debug)]
pub struct ConfigRow {
    pub network_name: String,
    pub rest: String,
    pub sse: String,
    pub rpc: String,
    pub binary: String,
    pub gossip: String,
}

/// Combined runtime configuration for a network entry.
#[derive(Debug)]
pub struct NetworkConfig {
    pub network_name: String,
    pub chain_name: String,
    pub rest: String,
    pub sse: String,
    pub rpc: String,
    pub binary: String,
    pub gossip: String,
}

/// What a [`NetworkConfig`] holds.
#[verifier::ext_equal]
pub struct NetworkConfigView {
    pub network_name: Seq<char>,
    pub chain_name: Seq<char>,
    pub rest: Seq<char>,
    pub sse: Seq<char>,
    pub rpc: Seq<char>,
    pub binary: Seq<char>,
    pub gossip: Seq<char>,
}

impl View for NetworkConfig {
    type V = NetworkConfigView;

    open spec fn view(&self) -> NetworkConfigView {
        NetworkConfigView {
            network_name: self.network_name@,
            chain_name: self.chain_name@,
            rest: self.rest@,
            sse: self.sse@,
            rpc: self.rpc@,
            binary: self.binary@,
            gossip: self.gossip@,
        }
    }
}

impl Clone for NetworkConfig {
    fn clone(&self) -> (r: Self)
        ensures
            r@ == self@,
    {
        NetworkConfig {
            network_name: self.network_name.clone(),
            chain_name: self.chain_name.clone(),
            rest: self.rest.clone(),
            sse: self.sse.clone(),
            rpc: self.rpc.clone(),
            binary: self.binary.clone(),
            gossip: self.gossip.clone(),
        }
    }
}

/// The configuration that two rows make.
pub open spec fn merged(network: NetworkRow, config: ConfigRow) -> NetworkConfigView {
    NetworkConfigView {
        network_name: network.network_name@,
        chain_name: network.chain_name@,
        rest: config.rest@,
        sse: config.sse@,
        rpc: config.rpc@,
        binary: config.binary@,
        gossip: config.gossip@,
    }
}

/// The views of a list of configurations.
pub open spec fn config_views(configs: Seq<NetworkConfig>) -> Seq<NetworkConfigView> {
    configs.map_values(|config: NetworkConfig| config@)
}

impl NetworkConfig {
    /// Merges the rows of the database into a single configuration. The name is
    /// that of the network row.
    pub fn from_rows(network: NetworkRow, config: ConfigRow) -> (r: Self)
        ensures
            r@ == merged(network, config),
    {
        NetworkConfig {
            network_name: network.network_name,
            chain_name: network.chain_name,
            rest: config.rest,
            sse: config.sse,
            rpc: config.rpc,
            binary: config.binary,
            gossip: config.gossip,
        }
    }
}

} // verus!
