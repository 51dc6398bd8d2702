//! Static configuration of the surrounding application: where it listens,
//! which stores it talks to, and the chain endpoint it serves. The
//! application shell loads these from its environment; the core only
//! carries the values.

use vstd::prelude::*;

verus! {

/// Application-level configuration values.
#[derive(Clone, Debug)]
pub struct Config {
    pub environment: String,
    pub host: String,
    pub port: u16,
    pub mongodb_uri: String,
    pub mongodb_database: String,
    pub redis_url: String,
    pub avax_rpc_url: String,
    pub avax_chain_id: u64,
    pub lighthouse_address: String,
}

} // verus!
