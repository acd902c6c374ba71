//! Configuration of the wallet's base-node service.

use vstd::prelude::*;

verus! {

/// Settings for the service that keeps the wallet in touch with its base
/// node.
pub struct BaseNodeServiceConfig {
    /// How often the base-node monitor refreshes, in seconds.
    pub base_node_monitor_refresh_interval: u64,
    /// The size of the RPC client pool.
    pub base_node_rpc_pool_size: usize,
    /// The size of the channel carrying base-node events to the wallet.
    pub event_channel_size: usize,
}

impl Default for BaseNodeServiceConfig {
    /// The stock configuration: refresh every three seconds, ten pooled RPC
    /// clients, room for 250 queued events.
    fn default() -> (r: BaseNodeServiceConfig)
        ensures
            r.base_node_monitor_refresh_interval == 3,
            r.base_node_rpc_pool_size == 10,
            r.event_channel_size == 250,
    {
        BaseNodeServiceConfig {
            base_node_monitor_refresh_interval: 3,
            base_node_rpc_pool_size: 10,
            event_channel_size: 250,
        }
    }
}

} // verus!
